//! The `ulimit` builtin: which limit an option names, what is printed for
//! a limit, and what a new limit sets.
use vstd::prelude::*;
use vstd::string::StringExecFns;

use crate::text::{decimal_u64_text, digits_of, str_eq};

verus! {

/// A resource limit that `ulimit` shows or sets: its name, its
/// description, and the unit its values are given in (bytes per unit).
#[derive(Clone, Copy, Debug)]
pub struct LimitInfo {
    pub name: &'static str,
    pub desc: &'static str,
    pub scale: u64,
}

/// Number of limits that `ulimit` knows.
pub const NUM_LIMITS: usize = 4;

/// Name, description and unit of limit number `i`: open files, core file
/// size, processes, stack size in kilobytes.
pub open spec fn limit_spec(i: int) -> (Seq<char>, Seq<char>, u64) {
    if i == 0 {
        ("open_files"@, "open files"@, 1)
    } else if i == 1 {
        ("core_file_size"@, "core file size"@, 1)
    } else if i == 2 {
        ("max_user_processes"@, "max user processes"@, 1)
    } else {
        ("stack_size"@, "stack size (kbytes)"@, 1024)
    }
}

/// Limit number `i`.
pub fn limit_at(i: usize) -> (l: LimitInfo)
    requires
        i < NUM_LIMITS,
    ensures
        (l.name@, l.desc@, l.scale) == limit_spec(i as int),
{
    if i == 0 {
        LimitInfo { name: "open_files", desc: "open files", scale: 1 }
    } else if i == 1 {
        LimitInfo { name: "core_file_size", desc: "core file size", scale: 1 }
    } else if i == 2 {
        LimitInfo { name: "max_user_processes", desc: "max user processes", scale: 1 }
    } else {
        LimitInfo { name: "stack_size", desc: "stack size (kbytes)", scale: 1024 }
    }
}

/// The number of the limit called `name`, if there is one.
pub open spec fn limit_index(name: Seq<char>) -> Option<int> {
    if name == limit_spec(0).0 {
        Some(0)
    } else if name == limit_spec(1).0 {
        Some(1)
    } else if name == limit_spec(2).0 {
        Some(2)
    } else if name == limit_spec(3).0 {
        Some(3)
    } else {
        None
    }
}

/// The limit called `name`, if there is one.
pub fn get_limit_info(name: &str) -> (r: Option<LimitInfo>)
    ensures
        match limit_index(name@) {
            Some(i) => r is Some && (r.unwrap().name@, r.unwrap().desc@, r.unwrap().scale) == limit_spec(i),
            None => r is None,
        },
{
    let mut i: usize = 0;
    while i < NUM_LIMITS
        invariant
            i <= NUM_LIMITS,
            forall|j: int| 0 <= j < i ==> limit_spec(j).0 != name@,
        decreases NUM_LIMITS - i,
    {
        let l = limit_at(i);
        if str_eq(l.name, name) {
            return Some(l);
        }
        i = i + 1;
    }
    None
}

/// What `ulimit` prints for a limit: its value in its unit (or
/// `unlimited`), alone when one limit was asked for, else after the
/// description and two tabs; with a newline.
pub open spec fn limit_output_spec(desc: Seq<char>, value: Option<u64>, scale: u64, single_print: bool) -> Seq<char> {
    let shown = match value {
        None => "unlimited"@,
        Some(v) => digits_of((v / scale) as nat),
    };
    if single_print { shown + "\n"@ } else { desc + "\t\t"@ + shown + "\n"@ }
}

/// The line that shows a limit whose value is `value` (`None` for no
/// limit).
pub fn limit_output(info: &LimitInfo, value: Option<u64>, single_print: bool) -> (s: String)
    requires
        info.scale >= 1,
    ensures
        s@ == limit_output_spec(info.desc@, value, info.scale, single_print),
{
    let shown = match value {
        None => "unlimited".to_string(),
        Some(v) => decimal_u64_text(v / info.scale),
    };
    let mut s = if single_print { String::new() } else {
        let mut t = info.desc.to_string();
        t.append("\t\t");
        t
    };
    s.append(shown.as_str());
    s.append("\n");
    s
}

/// The soft and hard limits after setting `value` (in the limit's unit,
/// saturating) as the hard limit (`for_hard`) or the soft one.
pub fn limits_after_set(soft: u64, hard: u64, value: u64, scale: u64, for_hard: bool) -> (r: (u64, u64))
    ensures
        r == (if for_hard {
            (soft, if value * scale > u64::MAX { u64::MAX } else { (value * scale) as u64 })
        } else {
            (if value * scale > u64::MAX { u64::MAX } else { (value * scale) as u64 }, hard)
        }),
{
    let actual = match value.checked_mul(scale) {
        Some(p) => p,
        None => u64::MAX,
    };
    if for_hard {
        (soft, actual)
    } else {
        (actual, hard)
    }
}

/// What `ulimit` does.
#[derive(Clone, Copy, Debug, PartialEq, Eq, Structural)]
pub enum UlimitAction {
    /// Both `-H` and `-S` were given: an error.
    Conflict,
    /// Show every limit.
    ReportAll,
    /// Show limit number `i`.
    Show(usize),
    /// Set limit number `i` to the value.
    Change(usize, u64),
}

/// What `ulimit` does with its options: both `-H` and `-S` are an error;
/// `-a` shows every limit; otherwise the first of `-n`, `-c`, `-u`, `-s`
/// given shows (without a value) or sets (with one) its limit; with none of
/// them, every limit is shown.
pub open spec fn ulimit_action_spec(all: bool, hard: bool, soft: bool, opts: Seq<Option<Option<u64>>>) -> UlimitAction {
    if hard && soft {
        UlimitAction::Conflict
    } else if all {
        UlimitAction::ReportAll
    } else {
        first_limit_option(opts, 0)
    }
}

/// The action of the first limit option given, from number `i` on.
pub open spec fn first_limit_option(opts: Seq<Option<Option<u64>>>, i: int) -> UlimitAction
    decreases opts.len() - i,
{
    if i < 0 || i >= opts.len() {
        UlimitAction::ReportAll
    } else {
        match opts[i] {
            None => first_limit_option(opts, i + 1),
            Some(None) => UlimitAction::Show(i as usize),
            Some(Some(v)) => UlimitAction::Change(i as usize, v),
        }
    }
}

/// What `ulimit` does, given `-a`, `-H`, `-S` and the options `-n`, `-c`,
/// `-u`, `-s` in that order (see `ulimit_action_spec`).
pub fn ulimit_action(all: bool, hard: bool, soft: bool, opts: &[Option<Option<u64>>]) -> (r: UlimitAction)
    ensures
        r == ulimit_action_spec(all, hard, soft, opts@),
{
    if hard && soft {
        return UlimitAction::Conflict;
    }
    if all {
        return UlimitAction::ReportAll;
    }
    let mut i: usize = 0;
    while i < opts.len()
        invariant
            i <= opts@.len(),
            !(hard && soft),
            !all,
            first_limit_option(opts@, 0) == first_limit_option(opts@, i as int),
        decreases opts@.len() - i,
    {
        match opts[i] {
            None => {},
            Some(None) => return UlimitAction::Show(i),
            Some(Some(v)) => return UlimitAction::Change(i, v),
        }
        i = i + 1;
    }
    UlimitAction::ReportAll
}

} // verus!
