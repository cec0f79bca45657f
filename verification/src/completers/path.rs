//! Paths typed on a command line.
use vstd::prelude::*;
use vstd::string::StrSliceExecFns;

use crate::linefeed::chars::{last_index, last_index_of, lemma_last_index_of};
use crate::re::{re_contains, regex_compiles, regex_is_match};
use crate::completers::completion::{
    completion_view, completions_view, sort_by_completion, sort_completions, sorted_by_completion, Completion,
    CompletionView, Suffix,
};
use crate::completers::quote::{escape_path, escape_path_spec, quote_with, quoted_spec};
use crate::text::{chars_of, push_char, str_starts_with, string_of};

verus! {

/// Whether `line` starts with the name of an environment variable, such as
/// `$HOME`.
pub fn is_env_prefix(line: &str) -> (b: bool)
    ensures
        b == (regex_compiles(" *\\$[a-zA-Z_][A-Za-z0-9_]*"@) && regex_is_match(" *\\$[a-zA-Z_][A-Za-z0-9_]*"@, line@)),
{
    re_contains(line, " *\\$[a-zA-Z_][A-Za-z0-9_]*")
}

/// Whether the end of `line` names an environment variable being typed,
/// such as `echo $HO`.
pub fn for_env(line: &str) -> (b: bool)
    ensures
        b == (regex_compiles(" *\\$[_a-zA-Z0-9]*$"@) && regex_is_match(" *\\$[_a-zA-Z0-9]*$"@, line@)),
{
    re_contains(line, " *\\$[_a-zA-Z0-9]*$")
}

/// Whether `line` holds a `~` that stands for the home directory: alone
/// between spaces, at the end after a space, or starting a path.
pub fn needs_expand_home(line: &str) -> (b: bool)
    ensures
        b == (regex_compiles("( +~ +)|( +~/)|(^ *~/)|( +~ *$)"@) && regex_is_match(
            "( +~ +)|( +~/)|(^ *~/)|( +~ *$)"@,
            line@,
        )),
{
    re_contains(line, "( +~ +)|( +~/)|(^ *~/)|( +~ *$)")
}

/// `path` starts with a quote.
pub open spec fn starts_quoted(path: Seq<char>) -> bool {
    path.len() > 0 && (path[0] == '"' || path[0] == '\'')
}

/// `path` continues a pipeline: it holds a `|` and is not quoted.
pub open spec fn pipelined(path: Seq<char>) -> bool {
    last_index_of(path, '|') is Some && !starts_quoted(path)
}

/// The directory part of `path` (up to and with its last `/`) and the file
/// name after it.
pub open spec fn split_dir(path: Seq<char>) -> (Seq<char>, Seq<char>) {
    match last_index_of(path, '/') {
        Some(k) => (path.take(k + 1), path.skip(k + 1)),
        None => (Seq::<char>::empty(), path),
    }
}

/// `path` split into the pipeline before the path being typed (with the
/// last `|`; otherwise `prefix`), the directory part and the file name.
pub open spec fn split_pathname_spec(path: Seq<char>, prefix: Seq<char>) -> (Seq<char>, Seq<char>, Seq<char>) {
    if pipelined(path) {
        let k = last_index_of(path, '|').unwrap();
        let rest = path.skip(k + 1);
        (path.take(k + 1), split_dir(rest).0, split_dir(rest).1)
    } else {
        (prefix, split_dir(path).0, split_dir(path).1)
    }
}

/// Whether `path` continues a pipeline.
pub fn is_pipelined(path: &str) -> (b: bool)
    ensures
        b == pipelined(path@),
{
    let v = chars_of(path);
    if last_index(&v, '|').is_none() {
        return false;
    }
    !(v.len() > 0 && (v[0] == '"' || v[0] == '\''))
}

/// Splits the directory part and the file name of `v[from..]`.
fn split_dir_of(v: &Vec<char>, from: usize) -> (r: (String, String))
    requires
        from <= v@.len(),
    ensures
        r.0@ == split_dir(v@.skip(from as int)).0,
        r.1@ == split_dir(v@.skip(from as int)).1,
{
    let n = v.len();
    let mut p = n;
    let ghost rest = v@.skip(from as int);
    proof {
        assert(rest.take((p - from) as int) =~= rest);
    }
    while p > from && v[p - 1] != '/'
        invariant
            from <= p <= n,
            n == v@.len(),
            rest == v@.skip(from as int),
            last_index_of(rest, '/') == last_index_of(rest.take(p - from), '/'),
        decreases p,
    {
        assert(rest.take(p - from).drop_last() =~= rest.take(p - from - 1));
        p = p - 1;
    }
    if p > from {
        assert(rest.take(p - from).last() == '/');
        let dir = string_of(v.as_slice(), from, p);
        let file = string_of(v.as_slice(), p, n);
        assert(v@.subrange(from as int, p as int) =~= rest.take(p - from));
        assert(v@.subrange(p as int, n as int) =~= rest.skip(p - from));
        (dir, file)
    } else {
        assert(rest.take(0) =~= Seq::<char>::empty());
        let file = string_of(v.as_slice(), from, n);
        assert(v@.subrange(from as int, n as int) =~= rest);
        (String::new(), file)
    }
}

/// Splits `path` into the pipeline before the path being typed, the
/// directory part and the file name (see `split_pathname_spec`).
pub fn split_pathname(path: &str, prefix: &str) -> (r: (String, String, String))
    ensures
        r.0@ == split_pathname_spec(path@, prefix@).0,
        r.1@ == split_pathname_spec(path@, prefix@).1,
        r.2@ == split_pathname_spec(path@, prefix@).2,
{
    let v = chars_of(path);
    if is_pipelined(path) {
        let k = last_index(&v, '|').unwrap();
        proof {
            lemma_last_index_of(v@, '|');
        }
        let head = string_of(v.as_slice(), 0, k + 1);
        assert(v@.subrange(0, k + 1) =~= v@.take(k + 1));
        let (dir, file) = split_dir_of(&v, k + 1);
        (head, dir, file)
    } else {
        let (dir, file) = split_dir_of(&v, 0);
        assert(v@.skip(0) =~= v@);
        (prefix.to_string(), dir, file)
    }
}

/// Splitting a path into directory and file name loses nothing: the parts
/// put together give the path back, the file name has no `/`, and the
/// directory part is empty or ends with `/`.
pub proof fn lemma_split_dir_parts(path: Seq<char>)
    ensures
        split_dir(path).0 + split_dir(path).1 == path,
        forall|i: int| 0 <= i < split_dir(path).1.len() ==> split_dir(path).1[i] != '/',
        split_dir(path).0.len() == 0 || split_dir(path).0.last() == '/',
{
    lemma_last_index_of(path, '/');
    match last_index_of(path, '/') {
        Some(k) => {
            assert(path.take(k + 1) + path.skip(k + 1) =~= path);
            assert forall|i: int| 0 <= i < path.skip(k + 1).len() implies #[trigger] path.skip(k + 1)[i] != '/' by {
                assert(path.skip(k + 1)[i] == path[k + 1 + i]);
            }
        },
        None => {
            assert(Seq::<char>::empty() + path =~= path);
        },
    }
}

/// Splitting a command line at the path being typed loses nothing: the
/// pipeline before it, its directory part and its file name put together
/// give the line back; outside a pipeline the prefix is passed through.
pub proof fn lemma_split_pathname_parts(path: Seq<char>, prefix: Seq<char>)
    ensures
        pipelined(path) ==> split_pathname_spec(path, prefix).0 + split_pathname_spec(path, prefix).1
            + split_pathname_spec(path, prefix).2 == path,
        !pipelined(path) ==> split_pathname_spec(path, prefix).0 == prefix
            && split_pathname_spec(path, prefix).1 + split_pathname_spec(path, prefix).2 == path,
{
    if pipelined(path) {
        lemma_last_index_of(path, '|');
        let k = last_index_of(path, '|').unwrap();
        let rest = path.skip(k + 1);
        lemma_split_dir_parts(rest);
        assert(path.take(k + 1) + rest =~= path);
        assert(path.take(k + 1) + split_dir(rest).0 + split_dir(rest).1 =~= path.take(k + 1) + (split_dir(rest).0
            + split_dir(rest).1));
    } else {
        lemma_split_dir_parts(path);
    }
}


/// `s` with each `//` replaced by `/`, matches taken from the left
/// (`str::replace`).
pub open spec fn single_slashes(s: Seq<char>) -> Seq<char>
    decreases s.len(),
{
    if s.len() == 0 {
        s
    } else if s.len() >= 2 && s[0] == '/' && s[1] == '/' {
        seq!['/'] + single_slashes(s.skip(2))
    } else {
        seq![s[0]] + single_slashes(s.drop_first())
    }
}

/// The directory entries as plain values: name, and whether it is a
/// directory.
pub open spec fn entries_view(v: Seq<(String, bool)>) -> Seq<(Seq<char>, bool)> {
    v.map_values(|e: (String, bool)| (e.0@, e.1))
}

/// The text `t` of a completion made fit for the command line: between
/// the quotes `sep` that the word was typed in (the closing one left off
/// for a directory, so that the path can go on), else, unless the word
/// names a variable (`is_env`), with its special characters escaped.
pub open spec fn quote_completion(t: Seq<char>, sep: Seq<char>, is_env: bool, is_dir: bool) -> Seq<char> {
    if sep.len() > 0 {
        if is_dir {
            quoted_spec(sep, t).drop_last()
        } else {
            quoted_spec(sep, t)
        }
    } else if !is_env {
        escape_path_spec(t)
    } else {
        t
    }
}

/// The completion for the entry `name` of the directory `dir` that was
/// typed (empty for the current directory): the directory and the name,
/// quoted as the word was (see `quote_completion`), shown by the name
/// alone, and a directory followed by `/`.
pub open spec fn entry_completion(dir: Seq<char>, name: Seq<char>, is_dir: bool, sep: Seq<char>, is_env: bool) -> CompletionView {
    CompletionView {
        completion: quote_completion(
            single_slashes(if dir.len() > 0 { dir + seq!['/'] + name } else { name }),
            sep,
            is_env,
            is_dir,
        ),
        display: if dir.len() > 0 { Some(name) } else { None },
        suffix: if is_dir { Suffix::Char('/') } else { Suffix::Default },
    }
}

/// Whether the entry is offered for the file name `file` typed: its name
/// starts with `file`, and it is a directory when only directories are.
pub open spec fn entry_offered(file: Seq<char>, for_dir: bool, name: Seq<char>, is_dir: bool) -> bool {
    (is_dir || !for_dir) && file.is_prefix_of(name)
}

/// The completions of the entries, in their order.
pub open spec fn entry_completions(
    dir: Seq<char>,
    file: Seq<char>,
    for_dir: bool,
    sep: Seq<char>,
    is_env: bool,
    entries: Seq<(Seq<char>, bool)>,
) -> Seq<
    CompletionView,
>
    decreases entries.len(),
{
    if entries.len() == 0 {
        Seq::empty()
    } else {
        let prev = entry_completions(dir, file, for_dir, sep, is_env, entries.drop_last());
        let e = entries.last();
        if entry_offered(file, for_dir, e.0, e.1) {
            prev.push(entry_completion(dir, e.0, e.1, sep, is_env))
        } else {
            prev
        }
    }
}

/// The completions of the path `path` being typed, `expanded` being the
/// same path with `~` and a leading `$NAME` expanded, among the entries of
/// the directory it names: the entries whose names start with the file
/// name typed, quoted as the word was (`path_sep` its quote, `is_env`
/// whether it starts with a variable), sorted by their text.
pub open spec fn path_completions_spec(
    path: Seq<char>,
    path_sep: Seq<char>,
    expanded: Seq<char>,
    is_env: bool,
    for_dir: bool,
    entries: Seq<(Seq<char>, bool)>,
) -> Seq<CompletionView> {
    sort_completions(
        entry_completions(
            split_pathname_spec(path, Seq::empty()).1,
            split_pathname_spec(expanded, Seq::empty()).2,
            for_dir,
            path_sep,
            is_env,
            entries,
        ),
    )
}

/// `t` made fit for the command line (see `quote_completion`).
fn quote_completion_of(t: &String, sep: &str, is_env: bool, is_dir: bool) -> (r: String)
    ensures
        r@ == quote_completion(t@, sep@, is_env, is_dir),
{
    if sep.unicode_len() > 0 {
        let q = quote_with(sep, t.as_str());
        if is_dir {
            let v = chars_of(q.as_str());
            assert(v@.len() >= 2);
            assert(v@.subrange(0, v@.len() - 1) =~= q@.drop_last());
            string_of(v.as_slice(), 0, v.len() - 1)
        } else {
            q
        }
    } else if !is_env {
        escape_path(t.as_str())
    } else {
        let mut r = String::new();
        r.append(t.as_str());
        r
    }
}

/// `s` with each `//` replaced by `/`.
fn single_slashes_of(s: &String) -> (r: String)
    ensures
        r@ == single_slashes(s@),
{
    let v = chars_of(s.as_str());
    let mut out = String::new();
    let mut i: usize = 0;
    proof {
        assert(v@.skip(0) =~= v@);
        assert(out@ + single_slashes(v@.skip(0)) =~= single_slashes(v@));
    }
    while i < v.len()
        invariant
            v@ == s@,
            i <= v@.len(),
            single_slashes(s@) == out@ + single_slashes(v@.skip(i as int)),
        decreases v@.len() - i,
    {
        let ghost t = v@.skip(i as int);
        if i + 1 < v.len() && v[i] == '/' && v[i + 1] == '/' {
            push_char(&mut out, '/');
            proof {
                assert(t[0] == '/' && t[1] == '/');
                assert(t.skip(2) =~= v@.skip(i + 2));
            }
            i = i + 2;
        } else {
            push_char(&mut out, v[i]);
            proof {
                assert(t[0] == v@[i as int]);
                if t.len() >= 2 {
                    assert(t[1] == v@[i + 1]);
                }
                assert(t.drop_first() =~= v@.skip(i + 1));
            }
            i = i + 1;
        }
    }
    proof {
        assert(v@.skip(i as int) =~= Seq::<char>::empty());
        assert(out@ + Seq::<char>::empty() =~= out@);
    }
    out
}

/// The completions of the path `path` being typed, with `expanded` the same
/// path after `~` and `$NAME` expansion and `entries` the names of the
/// entries of the directory it names, each with whether it is a directory;
/// `for_dir` offers directories only (for `cd`). `path_sep` is the quote
/// the word was typed in (empty for none) and `is_env` whether it starts
/// with a variable; the completions are quoted as the word was, and
/// sorted by their text.
pub fn path_completions(
    path: &str,
    path_sep: &str,
    expanded: &str,
    is_env: bool,
    for_dir: bool,
    entries: &Vec<(String, bool)>,
) -> (r: Vec<Completion>)
    ensures
        completions_view(r@) == path_completions_spec(path@, path_sep@, expanded@, is_env, for_dir, entries_view(entries@)),
        sorted_by_completion(completions_view(r@)),
{
    let (_, dir, _) = split_pathname(path, "");
    let (_, _, file) = split_pathname(expanded, "");
    proof {
        reveal_strlit("");
        assert(""@ =~= Seq::<char>::empty());
    }
    let ghost ev = entries_view(entries@);
    let mut out: Vec<Completion> = Vec::new();
    let mut i: usize = 0;
    while i < entries.len()
        invariant
            ev == entries_view(entries@),
            dir@ == split_pathname_spec(path@, Seq::empty()).1,
            file@ == split_pathname_spec(expanded@, Seq::empty()).2,
            i <= entries@.len(),
            completions_view(out@) == entry_completions(dir@, file@, for_dir, path_sep@, is_env, ev.take(i as int)),
        decreases entries@.len() - i,
    {
        proof {
            assert(ev.take(i + 1).drop_last() =~= ev.take(i as int));
            assert(ev.take(i + 1).last() == (entries@[i as int].0@, entries@[i as int].1));
        }
        let name = &entries[i].0;
        let is_dir = entries[i].1;
        if (is_dir || !for_dir) && str_starts_with(name.as_str(), file.as_str()) {
            let has_dir = dir.as_str().unicode_len() > 0;
            let mut full = String::new();
            if has_dir {
                full.append(dir.as_str());
                push_char(&mut full, '/');
            }
            full.append(name.as_str());
            proof {
                if dir@.len() > 0 {
                    assert(full@ =~= dir@ + seq!['/'] + name@);
                } else {
                    assert(full@ =~= name@);
                }
            }
            let joined = single_slashes_of(&full);
            let text = quote_completion_of(&joined, path_sep, is_env, is_dir);
            let display = if has_dir {
                Some(name.clone())
            } else {
                None
            };
            let suffix = if is_dir {
                Suffix::Char('/')
            } else {
                Suffix::Default
            };
            let c = Completion { completion: text, display, suffix };
            let ghost before = completions_view(out@);
            out.push(c);
            proof {
                assert(completion_view(c) == entry_completion(dir@, name@, is_dir, path_sep@, is_env));
                assert(completions_view(out@) =~= before.push(completion_view(c)));
            }
        }
        i = i + 1;
    }
    proof {
        assert(ev.take(ev.len() as int) =~= ev);
    }
    sort_by_completion(out)
}

} // verus!
