//! The `export` builtin: which variables its words assign, and when it
//! refuses them.
use vstd::prelude::*;
use vstd::string::StringExecFns;

use crate::re::{find_group_pairs, pairs_view, re_contains, regex_compiles, regex_group_pairs, regex_is_match};
use crate::text::{str_eq, strings_view};

verus! {

/// The pattern of a word that assigns a variable, `NAME=value`.
pub const ENV_ASSIGNMENT: &'static str = "^[a-zA-Z_][a-zA-Z0-9_]*=.*$";

/// The same pattern, with the name and the value as capture groups.
pub const EXPORT_PAIR: &'static str = "^([a-zA-Z_][a-zA-Z0-9_]*)=(.*)$";

/// Why `export` refused a word.
#[derive(Clone, Copy, Debug, PartialEq, Eq, Structural)]
pub enum ExportError {
    /// The word does not assign a variable.
    Invalid,
    /// The word does not have the form `NAME=value`.
    Usage,
}

/// What `export` prints when it refuses a word.
pub open spec fn export_error_text(e: ExportError) -> Seq<char> {
    match e {
        ExportError::Invalid => "export: invalid command\nusage: export XXX=YYY"@,
        ExportError::Usage => "export: invalid command\nusage: export XXX=YYY ZZ=123"@,
    }
}

impl ExportError {
    /// What `export` prints when it refuses a word.
    pub fn message(&self) -> (s: String)
        ensures
            s@ == export_error_text(*self),
    {
        match self {
            ExportError::Invalid => {
                let s = String::from_str("export: invalid command\nusage: export XXX=YYY");
                proof {
                    reveal_strlit("export: invalid command\nusage: export XXX=YYY");
                }
                s
            },
            ExportError::Usage => {
                let s = String::from_str("export: invalid command\nusage: export XXX=YYY ZZ=123");
                proof {
                    reveal_strlit("export: invalid command\nusage: export XXX=YYY ZZ=123");
                }
                s
            },
        }
    }
}

/// Whether `word` assigns a variable.
pub open spec fn is_assignment(word: Seq<char>) -> bool {
    regex_compiles(ENV_ASSIGNMENT@) && regex_is_match(ENV_ASSIGNMENT@, word)
}

/// The name and value of each match of `EXPORT_PAIR` in `word`.
pub open spec fn export_pairs(word: Seq<char>) -> Seq<(Seq<char>, Seq<char>)> {
    if regex_compiles(EXPORT_PAIR@) {
        regex_group_pairs(EXPORT_PAIR@, word)
    } else {
        Seq::empty()
    }
}

/// What `export` does with the words `words`, left to right: the word
/// `export` is passed over, each other word adds the variables it assigns,
/// and the first word that is no assignment stops it with an error; the
/// assignments of the words before it stand.
pub open spec fn export_spec(words: Seq<Seq<char>>) -> (Seq<(Seq<char>, Seq<char>)>, Option<ExportError>)
    decreases words.len(),
{
    if words.len() == 0 {
        (Seq::empty(), None)
    } else {
        let (done, err) = export_spec(words.drop_last());
        let w = words.last();
        if err is Some {
            (done, err)
        } else if w == "export"@ {
            (done, None)
        } else if !is_assignment(w) {
            (done, Some(ExportError::Invalid))
        } else if !(regex_compiles(EXPORT_PAIR@) && regex_is_match(EXPORT_PAIR@, w)) {
            (done, Some(ExportError::Usage))
        } else {
            (done + export_pairs(w), None)
        }
    }
}

/// The variables that `export` with the words `words` assigns, in order,
/// as names and values as written, and the error that stopped it, if any
/// (see `export_spec`).
pub fn export_assignments(words: &Vec<String>) -> (r: (Vec<(String, String)>, Option<ExportError>))
    ensures
        pairs_view(r.0@) == export_spec(strings_view(words@)).0,
        r.1 == export_spec(strings_view(words@)).1,
{
    let ghost wv = strings_view(words@);
    let mut done: Vec<(String, String)> = Vec::new();
    let mut i: usize = 0;
    proof {
        assert(wv.take(0) =~= Seq::<Seq<char>>::empty());
        assert(pairs_view(done@) =~= Seq::empty());
    }
    while i < words.len()
        invariant
            i <= words@.len(),
            wv == strings_view(words@),
            pairs_view(done@) == export_spec(wv.take(i as int)).0,
            export_spec(wv.take(i as int)).1 is None,
        decreases words@.len() - i,
    {
        proof {
            assert(wv.take(i + 1).drop_last() =~= wv.take(i as int));
            assert(wv.take(i + 1).last() == words@[i as int]@);
        }
        let w = words[i].as_str();
        if str_eq(w, "export") {
            proof {
                reveal_strlit("export");
            }
        } else if !re_contains(w, ENV_ASSIGNMENT) {
            proof {
                lemma_export_stops(wv, i as int + 1);
                assert(wv.take(wv.len() as int) =~= wv);
            }
            return (done, Some(ExportError::Invalid));
        } else if !re_contains(w, EXPORT_PAIR) {
            proof {
                lemma_export_stops(wv, i as int + 1);
                assert(wv.take(wv.len() as int) =~= wv);
            }
            return (done, Some(ExportError::Usage));
        } else {
            let pairs = find_group_pairs(EXPORT_PAIR, w);
            let ghost before = pairs_view(done@);
            let mut k: usize = 0;
            while k < pairs.len()
                invariant
                    k <= pairs@.len(),
                    pairs_view(done@) == before + pairs_view(pairs@).take(k as int),
                decreases pairs@.len() - k,
            {
                let name = pairs[k].0.clone();
                let value = pairs[k].1.clone();
                let ghost prev = pairs_view(done@);
                done.push((name, value));
                proof {
                    assert(pairs_view(done@) =~= prev.push((name@, value@)));
                    assert(pairs_view(pairs@).take(k + 1) =~= pairs_view(pairs@).take(k as int).push((name@, value@)));
                }
                k = k + 1;
            }
            proof {
                assert(pairs_view(pairs@).take(pairs@.len() as int) =~= pairs_view(pairs@));
            }
        }
        i = i + 1;
    }
    proof {
        assert(wv.take(wv.len() as int) =~= wv);
    }
    (done, None)
}

/// Once a word has stopped `export`, the words after it change nothing.
proof fn lemma_export_stops(words: Seq<Seq<char>>, k: int)
    requires
        0 <= k <= words.len(),
        export_spec(words.take(k)).1 is Some,
    ensures
        export_spec(words) == export_spec(words.take(k)),
    decreases words.len() - k,
{
    if k < words.len() {
        assert(words.take(k + 1).drop_last() =~= words.take(k));
        lemma_export_stops(words, k + 1);
    } else {
        assert(words.take(k) =~= words);
    }
}

} // verus!
