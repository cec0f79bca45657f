//! The `vox` builtin, which enters and leaves Python virtual environments:
//! what a command asks for, and the search path left after leaving one.
use vstd::prelude::*;
use vstd::string::StringExecFns;

use crate::text::{chars_of, join_seq, join_strings, str_eq, string_from_vec, strings_view};

verus! {

/// What a `vox` command asks for.
#[derive(Debug, PartialEq, Eq)]
pub enum VoxAction {
    /// List the environments (`vox` or `vox ls`).
    List,
    /// Enter the named environment (`vox enter NAME`).
    Enter(String),
    /// Leave the current environment (`vox exit`).
    Exit,
    /// Anything else.
    Invalid,
}

/// The request that the words `args` of a `vox` command (the first being
/// `vox`) make.
pub fn vox_action(args: &Vec<String>) -> (r: VoxAction)
    ensures
        (args@.len() == 1 || (args@.len() == 2 && args@[1]@ == "ls"@)) ==> r is List,
        !(args@.len() == 1 || (args@.len() == 2 && args@[1]@ == "ls"@)) ==> {
            if args@.len() == 3 && args@[1]@ == "enter"@ {
                r matches VoxAction::Enter(name) && name@ == args@[2]@
            } else if args@.len() == 2 && args@[1]@ == "exit"@ {
                r is Exit
            } else {
                r is Invalid
            }
        },
{
    let len = args.len();
    if len == 1 || (len == 2 && str_eq(args[1].as_str(), "ls")) {
        return VoxAction::List;
    }
    if len == 3 && str_eq(args[1].as_str(), "enter") {
        VoxAction::Enter(args[2].clone())
    } else if len == 2 && str_eq(args[1].as_str(), "exit") {
        VoxAction::Exit
    } else {
        VoxAction::Invalid
    }
}

/// `s` cut at each `c` (`str::split`).
pub open spec fn split_on(s: Seq<char>, c: char) -> Seq<Seq<char>>
    decreases s.len(),
{
    if s.len() == 0 {
        seq![Seq::empty()]
    } else {
        let r = split_on(s.drop_last(), c);
        if s.last() == c {
            r.push(Seq::empty())
        } else {
            r.update(r.len() - 1, r.last().push(s.last()))
        }
    }
}

/// Cutting gives at least one piece.
pub proof fn lemma_split_on_len(s: Seq<char>, c: char)
    ensures
        split_on(s, c).len() >= 1,
    decreases s.len(),
{
    if s.len() > 0 {
        lemma_split_on_len(s.drop_last(), c);
    }
}

/// Cutting a text at a character and joining the pieces with it gives the
/// text back.
pub proof fn lemma_split_join(s: Seq<char>, c: char)
    ensures
        join_seq(split_on(s, c), seq![c]) == s,
    decreases s.len(),
{
    if s.len() > 0 {
        let r = split_on(s.drop_last(), c);
        lemma_split_join(s.drop_last(), c);
        lemma_split_on_len(s.drop_last(), c);
        if s.last() == c {
            assert(r.push(Seq::empty()).drop_last() =~= r);
            assert(s.drop_last() + seq![c] + Seq::<char>::empty() =~= s);
        } else {
            let u = r.update(r.len() - 1, r.last().push(s.last()));
            if r.len() == 1 {
                assert(s.drop_last().push(s.last()) =~= s);
            } else {
                assert(u.drop_last() =~= r.drop_last());
                assert(join_seq(r.drop_last(), seq![c]) + seq![c] + r.last().push(s.last()) =~= (join_seq(
                    r.drop_last(),
                    seq![c],
                ) + seq![c] + r.last()).push(s.last()));
                assert(s.drop_last().push(s.last()) =~= s);
            }
        }
    }
}

/// `parts` without its first element equal to `x`, if any.
pub open spec fn remove_first(parts: Seq<Seq<char>>, x: Seq<char>) -> Seq<Seq<char>>
    decreases parts.len(),
{
    if parts.len() == 0 {
        parts
    } else if parts[0] == x {
        parts.drop_first()
    } else {
        seq![parts[0]] + remove_first(parts.drop_first(), x)
    }
}

/// Removing an element that is not there changes nothing.
pub proof fn lemma_remove_absent(parts: Seq<Seq<char>>, x: Seq<char>)
    requires
        !parts.contains(x),
    ensures
        remove_first(parts, x) == parts,
    decreases parts.len(),
{
    if parts.len() > 0 {
        assert(!parts.drop_first().contains(x)) by {
            if parts.drop_first().contains(x) {
                let k = choose|k: int| 0 <= k < parts.drop_first().len() && parts.drop_first()[k] == x;
                assert(parts[k + 1] == x);
            }
        }
        lemma_remove_absent(parts.drop_first(), x);
        assert(seq![parts[0]] + parts.drop_first() =~= parts);
    }
}

/// The search path `path` without its first entry equal to `entry`.
pub open spec fn path_without(path: Seq<char>, entry: Seq<char>) -> Seq<char> {
    join_seq(remove_first(split_on(path, ':'), entry), seq![':'])
}

/// Leaving an environment whose directory is not on the search path leaves
/// the search path as it was.
pub proof fn lemma_path_without_absent(path: Seq<char>, entry: Seq<char>)
    requires
        !split_on(path, ':').contains(entry),
    ensures
        path_without(path, entry) == path,
{
    lemma_remove_absent(split_on(path, ':'), entry);
    lemma_split_join(path, ':');
}

/// The pieces of `s` cut at `c`.
fn split_chars(s: &str, c: char) -> (r: Vec<String>)
    ensures
        strings_view(r@) == split_on(s@, c),
{
    let v = chars_of(s);
    let mut parts: Vec<String> = Vec::new();
    let mut cur: Vec<char> = Vec::new();
    let mut i: usize = 0;
    while i < v.len()
        invariant
            v@ == s@,
            i <= v@.len(),
            split_on(v@.take(i as int), c) == strings_view(parts@).push(cur@),
        decreases v@.len() - i,
    {
        proof {
            assert(v@.take(i + 1).drop_last() =~= v@.take(i as int));
            assert(v@.take(i + 1).last() == v@[i as int]);
        }
        if v[i] == c {
            let piece = string_from_vec(&cur);
            let ghost before = strings_view(parts@);
            parts.push(piece);
            cur = Vec::new();
            proof {
                assert(strings_view(parts@) =~= before.push(piece@));
                assert(split_on(v@.take(i + 1), c) =~= strings_view(parts@).push(cur@));
            }
        } else {
            cur.push(v[i]);
            proof {
                assert(split_on(v@.take(i + 1), c) =~= strings_view(parts@).push(cur@));
            }
        }
        i = i + 1;
    }
    let last = string_from_vec(&cur);
    let ghost before = strings_view(parts@);
    parts.push(last);
    proof {
        assert(v@.take(v@.len() as int) =~= v@);
        assert(strings_view(parts@) =~= before.push(last@));
    }
    parts
}

/// The search path `path` without the first of its entries that equals
/// `entry`, the `bin` directory of the environment being left.
pub fn remove_path_entry(path: &str, entry: &str) -> (r: String)
    ensures
        r@ == path_without(path@, entry@),
{
    let parts = split_chars(path, ':');
    let ghost ps = strings_view(parts@);
    let mut kept: Vec<String> = Vec::new();
    let mut i: usize = 0;
    let mut removed = false;
    assert(ps.skip(0) =~= ps);
    assert(strings_view(kept@) + ps =~= ps);
    while i < parts.len()
        invariant
            i <= parts@.len(),
            ps == strings_view(parts@),
            !removed ==> remove_first(ps, entry@) == strings_view(kept@) + remove_first(ps.skip(i as int), entry@),
            removed ==> remove_first(ps, entry@) == strings_view(kept@) + ps.skip(i as int),
        decreases parts@.len() - i,
    {
        proof {
            assert(ps.skip(i as int).drop_first() =~= ps.skip(i + 1));
            assert(ps.skip(i as int)[0] == parts@[i as int]@);
        }
        let ghost before = strings_view(kept@);
        if !removed && str_eq(parts[i].as_str(), entry) {
            removed = true;
        } else {
            kept.push(parts[i].clone());
            proof {
                assert(strings_view(kept@) =~= before.push(parts@[i as int]@));
                assert(seq![ps.skip(i as int)[0]] + ps.skip(i + 1) =~= ps.skip(i as int));
                assert(strings_view(kept@) + ps.skip(i + 1) =~= before + ps.skip(i as int));
                assert(strings_view(kept@) + remove_first(ps.skip(i + 1), entry@) =~= before + (seq![ps.skip(
                    i as int,
                )[0]] + remove_first(ps.skip(i + 1), entry@)));
            }
        }
        i = i + 1;
    }
    proof {
        assert(ps.skip(parts@.len() as int) =~= Seq::<Seq<char>>::empty());
        assert(strings_view(kept@) + Seq::<Seq<char>>::empty() =~= strings_view(kept@));
        reveal_strlit(":");
        assert(":"@ =~= seq![':']);
    }
    join_strings(kept.as_slice(), ":")
}

/// The activation script of the environment `name` under `home`.
pub fn activate_path(home: &str, name: &str) -> (r: String)
    ensures
        r@ == home@ + "/"@ + name@ + "/bin/activate"@,
{
    let mut s = String::new();
    s.append(home);
    s.append("/");
    s.append(name);
    s.append("/bin/activate");
    s
}

} // verus!
