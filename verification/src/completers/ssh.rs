//! Completion of host names for `ssh` and `scp`, from the `Host` lines of
//! an ssh configuration.
use vstd::prelude::*;

use crate::completers::{push_prefixed, with_prefix};
use crate::re::{compile, regex_compiles, regex_first_groups, regex_is_match};
use crate::text::strings_view;

verus! {

/// The pattern of a `Host` line; its group is the host name.
pub const HOST_LINE: &'static str = "^ *(?i)host +([^ ]+)";

/// The host names that the `Host` lines among `lines` declare and that
/// start with `word`, in order.
pub open spec fn host_names(lines: Seq<Seq<char>>, word: Seq<char>) -> Seq<Seq<char>>
    decreases lines.len(),
{
    if lines.len() == 0 {
        Seq::empty()
    } else {
        let line = lines.last();
        host_names(lines.drop_last(), word) + if regex_is_match(HOST_LINE@, line) {
            with_prefix(regex_first_groups(HOST_LINE@, line), word)
        } else {
            Seq::empty()
        }
    }
}

/// The host names to offer for `word`, given the lines of the ssh
/// configuration; `None` when the pattern of a `Host` line does not compile.
pub fn ssh_hosts(lines: &Vec<String>, word: &str) -> (r: Option<Vec<String>>)
    ensures
        r is Some <==> regex_compiles(HOST_LINE@),
        r matches Some(v) ==> strings_view(v@) == host_names(strings_view(lines@), word@),
{
    let re = match compile(HOST_LINE) {
        Some(re) => re,
        None => return None,
    };
    let mut res: Vec<String> = Vec::new();
    let mut i: usize = 0;
    while i < lines.len()
        invariant
            i <= lines@.len(),
            re.source@ == HOST_LINE@,
            strings_view(res@) == host_names(strings_view(lines@.take(i as int)), word@),
        decreases lines@.len() - i,
    {
        let line = lines[i].as_str();
        proof {
            assert(strings_view(lines@.take(i + 1)).drop_last() =~= strings_view(lines@.take(i as int)));
            assert(strings_view(lines@.take(i + 1)).last() == lines@[i as int]@);
        }
        if re.is_match(line) {
            let hosts = re.first_groups(line);
            push_prefixed(&mut res, &hosts, word);
        } else {
            proof {
                assert(strings_view(res@) =~= strings_view(res@) + Seq::<Seq<char>>::empty());
            }
        }
        i = i + 1;
    }
    proof {
        assert(lines@.take(lines@.len() as int) =~= lines@);
    }
    Some(res)
}

} // verus!
