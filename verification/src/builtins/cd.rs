//! The `cd` builtin: which directory a command asks for.
use vstd::prelude::*;
use vstd::string::StringExecFns;

use crate::text::{join_seq, join_strings, str_eq, str_starts_with, strings_view};

verus! {

/// Where `cd` is asked to go.
#[derive(Debug, PartialEq, Eq)]
pub enum CdTarget {
    /// More than one argument was given.
    TooManyArgs,
    /// `cd -` without a previous directory.
    NoPreviousDir,
    /// The directory to change to, before it is resolved.
    Dir(String),
}

/// The directory that the words `args` ask for, before `-` and relative
/// paths are resolved: the home directory without an argument, else the
/// arguments run together.
pub open spec fn cd_request(args: Seq<Seq<char>>, home: Seq<char>) -> Seq<char> {
    if args.len() == 1 {
        home
    } else {
        join_seq(args.skip(1), Seq::empty())
    }
}

/// Where the words `args` of a `cd` command (the first being `cd`) lead,
/// from `current_dir`, with `home` the user's home directory and
/// `previous_dir` the directory left last (empty when there is none).
pub fn cd_target(args: &Vec<String>, home: &str, current_dir: &str, previous_dir: &str) -> (r: CdTarget)
    requires
        args@.len() >= 1,
    ensures
        args@.len() > 2 ==> r is TooManyArgs,
        args@.len() <= 2 ==> {
            let dir = cd_request(strings_view(args@), home@);
            if dir == "-"@ {
                if previous_dir@.len() == 0 {
                    r is NoPreviousDir
                } else {
                    r matches CdTarget::Dir(d) && d@ == previous_dir@
                }
            } else if "/"@.is_prefix_of(dir) {
                r matches CdTarget::Dir(d) && d@ == dir
            } else {
                r matches CdTarget::Dir(d) && d@ == current_dir@ + "/"@ + dir
            }
        },
{
    if args.len() > 2 {
        return CdTarget::TooManyArgs;
    }
    let dir = if args.len() == 1 {
        let mut d = String::new();
        d.append(home);
        d
    } else {
        let rest = args.as_slice().split_at(1).1;
        assert(strings_view(rest@) =~= strings_view(args@).skip(1));
        let d = join_strings(rest, "");
        proof {
            reveal_strlit("");
            assert(""@ =~= Seq::<char>::empty());
        }
        d
    };
    if str_eq(dir.as_str(), "-") {
        if previous_dir.unicode_len() == 0 {
            CdTarget::NoPreviousDir
        } else {
            let mut d = String::new();
            d.append(previous_dir);
            CdTarget::Dir(d)
        }
    } else if str_starts_with(dir.as_str(), "/") {
        CdTarget::Dir(dir)
    } else {
        let mut d = String::new();
        d.append(current_dir);
        d.append("/");
        d.append(dir.as_str());
        CdTarget::Dir(d)
    }
}

} // verus!
