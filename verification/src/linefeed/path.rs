//! Where the line reader looks for its configuration file.
use vstd::prelude::*;

verus! {

/// The system-wide configuration file, `/etc/inputrc`.
pub fn system_init_file() -> (p: Option<String>)
    ensures
        p is Some && p.unwrap()@ == "/etc/inputrc"@,
{
    Some("/etc/inputrc".to_string())
}

} // verus!
