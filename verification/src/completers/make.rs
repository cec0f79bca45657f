//! Completion of `make` targets from the lines of a Makefile.
//!
//! A line may name targets (`name:`) and include other Makefiles
//! (`include file`); reading the files is left to the caller, which feeds
//! each line to `makefile_line` and follows the includes it reports.
use vstd::prelude::*;

use crate::completers::{push_prefixed, with_prefix};
use crate::re::{compile, regex_compiles, regex_first_groups, regex_is_match};
use crate::text::strings_view;
use crate::text::{chars_of, contains_char, push_char};

verus! {

/// The pattern of a target line; its group is the target's name.
pub const TARGET_LINE: &'static str = "^ *([^ ]+):";

/// The pattern of an include line; its group is the included file.
pub const INCLUDE_LINE: &'static str = "^ *include  *([^ ]+) *$";

/// What one line of a Makefile contributes.
pub struct MakeLine {
    /// Targets that start with the word being completed, in order.
    pub targets: Vec<String>,
    /// Paths of the Makefiles that the line includes, in order.
    pub includes: Vec<String>,
}

/// The path of an included file: as written when it holds a `/`, else in
/// the directory `dir`.
pub open spec fn include_path(file: Seq<char>, dir: Seq<char>) -> Seq<char> {
    if file.contains('/') {
        file
    } else {
        dir + seq!['/'] + file
    }
}

/// The targets that `line` names and that start with `word`.
pub open spec fn line_targets(line: Seq<char>, word: Seq<char>) -> Seq<Seq<char>> {
    if regex_is_match(TARGET_LINE@, line) {
        with_prefix(regex_first_groups(TARGET_LINE@, line), word)
    } else {
        Seq::empty()
    }
}

/// The paths of the files that `line` includes, relative ones taken in `dir`.
pub open spec fn line_includes(line: Seq<char>, dir: Seq<char>) -> Seq<Seq<char>> {
    if regex_is_match(INCLUDE_LINE@, line) {
        regex_first_groups(INCLUDE_LINE@, line).map_values(|f: Seq<char>| include_path(f, dir))
    } else {
        Seq::empty()
    }
}

/// The path of `file`, included from a Makefile in `dir`.
fn join_include(file: &str, dir: &str) -> (r: String)
    ensures
        r@ == include_path(file@, dir@),
{
    let v = chars_of(file);
    if contains_char(&v, '/') {
        let mut s = String::new();
        s.append(file);
        return s;
    }
    let mut s = String::new();
    s.append(dir);
    push_char(&mut s, '/');
    s.append(file);
    assert(s@ =~= dir@ + seq!['/'] + file@);
    s
}

/// The targets and includes of one Makefile `line`, for completing `word`
/// in `current_dir`; `None` when one of the two patterns does not compile.
pub fn makefile_line(line: &str, word: &str, current_dir: &str) -> (r: Option<MakeLine>)
    ensures
        r is Some <==> (regex_compiles(TARGET_LINE@) && regex_compiles(INCLUDE_LINE@)),
        r matches Some(m) ==> {
            &&& strings_view(m.targets@) == line_targets(line@, word@)
            &&& strings_view(m.includes@) == line_includes(line@, current_dir@)
        },
{
    let re_cmd = match compile(TARGET_LINE) {
        Some(re) => re,
        None => return None,
    };
    let re_include = match compile(INCLUDE_LINE) {
        Some(re) => re,
        None => return None,
    };
    let mut targets: Vec<String> = Vec::new();
    if re_cmd.is_match(line) {
        let names = re_cmd.first_groups(line);
        push_prefixed(&mut targets, &names, word);
        assert(strings_view(targets@) =~= line_targets(line@, word@));
    } else {
        assert(strings_view(targets@) =~= line_targets(line@, word@));
    }
    let mut includes: Vec<String> = Vec::new();
    if re_include.is_match(line) {
        let files = re_include.first_groups(line);
        let mut i: usize = 0;
        while i < files.len()
            invariant
                i <= files@.len(),
                strings_view(includes@) == strings_view(files@.take(i as int)).map_values(
                    |f: Seq<char>| include_path(f, current_dir@),
                ),
            decreases files@.len() - i,
        {
            let p = join_include(files[i].as_str(), current_dir);
            let ghost before = strings_view(includes@);
            includes.push(p);
            proof {
                assert(strings_view(includes@) =~= before.push(include_path(files@[i as int]@, current_dir@)));
                assert(strings_view(files@.take(i + 1)) =~= strings_view(files@.take(i as int)).push(files@[i as int]@));
                assert(strings_view(includes@) =~= strings_view(files@.take(i + 1)).map_values(
                    |f: Seq<char>| include_path(f, current_dir@),
                ));
            }
            i = i + 1;
        }
        proof {
            assert(files@.take(files@.len() as int) =~= files@);
            assert(strings_view(includes@) =~= line_includes(line@, current_dir@));
        }
    } else {
        assert(strings_view(includes@) =~= line_includes(line@, current_dir@));
    }
    Some(MakeLine { targets, includes })
}

} // verus!
