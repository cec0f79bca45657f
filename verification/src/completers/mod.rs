//! Completion of shell command lines: where the word under the cursor
//! starts, and how a path typed so far splits into its parts.
use vstd::prelude::*;

use crate::text::strings_view;
use crate::text::str_starts_with;
use crate::text::{blen, boff, chars_of, char_len, is_boundary, lemma_boff_mono, lemma_boff_step, lemma_idx_of, str_len};

pub mod bin;
pub mod completion;
pub mod dots;
pub mod env;
pub mod make;
pub mod path;
pub mod quote;
pub mod ssh;
pub mod utils;

verus! {

/// The state of a left-to-right walk over a command line that looks for
/// the start of its last word.
pub struct WordScan {
    /// Character index at which the current word starts.
    pub start: int,
    /// The previous character was a backslash.
    pub escaped: bool,
    /// The previous character was a space that separates words.
    pub after_space: bool,
    /// The walk is inside quotes.
    pub quoted: bool,
    /// The quote character that opened them.
    pub quote: char,
}

pub open spec fn scan_init() -> WordScan {
    WordScan { start: 0, escaped: false, after_space: false, quoted: false, quote: '\0' }
}

/// One character `c`, at index `i`, walked over. A word starts after a
/// space that is neither escaped by a backslash nor inside quotes; an
/// unescaped quote opens quotes, and the same quote character closes them.
pub open spec fn scan_step(st: WordScan, i: int, c: char) -> WordScan {
    let start = if st.after_space { i } else { st.start };
    if c == '\\' {
        WordScan { start, escaped: true, after_space: false, quoted: st.quoted, quote: st.quote }
    } else if c == ' ' && !st.escaped && !st.quoted {
        WordScan { start, escaped: false, after_space: true, quoted: st.quoted, quote: st.quote }
    } else if !st.quoted && !st.escaped && (c == '"' || c == '\'') {
        WordScan { start, escaped: false, after_space: false, quoted: true, quote: c }
    } else if st.quoted && !st.escaped && st.quote == c {
        WordScan { start, escaped: false, after_space: false, quoted: false, quote: st.quote }
    } else {
        WordScan { start, escaped: false, after_space: false, quoted: st.quoted, quote: st.quote }
    }
}

/// The walk over the first `k` characters of `s`.
pub open spec fn scan(s: Seq<char>, k: int) -> WordScan
    decreases k,
{
    if k <= 0 {
        scan_init()
    } else {
        scan_step(scan(s, k - 1), k - 1, s[k - 1])
    }
}

/// Byte offset in `s` at which its last word starts: just after the last
/// space that separates words, or the end of `s` when it ends with such a
/// space.
pub open spec fn word_start_spec(s: Seq<char>) -> nat {
    let st = scan(s, s.len() as int);
    if st.after_space { blen(s) } else { boff(s, st.start) }
}

proof fn lemma_scan_start(s: Seq<char>, k: int)
    requires
        0 <= k <= s.len(),
    ensures
        0 <= scan(s, k).start <= k,
    decreases k,
{
    if k > 0 {
        lemma_scan_start(s, k - 1);
    }
}

/// Byte offset at which the word that ends `line` starts, where words are
/// separated by spaces that are not escaped with a backslash and not
/// inside quotes.
pub fn escaped_word_start(line: &str) -> (n: usize)
    ensures
        n == word_start_spec(line@),
{
    let v = chars_of(line);
    let total = str_len(line);
    let mut start_position: usize = 0;
    let mut found_bs = false;
    let mut found_space = false;
    let mut with_quote = false;
    let mut ch_quote = '\0';
    let mut pos: usize = 0;
    let mut i: usize = 0;
    proof {
        assert(v@.take(0) =~= Seq::<char>::empty());
        assert(v@.take(v@.len() as int) =~= v@);
    }
    while i < v.len()
        invariant
            v@ == line@,
            total == blen(line@),
            i <= v@.len(),
            pos == boff(v@, i as int),
            boff(v@, v@.len() as int) == blen(v@),
            scan(v@, i as int).escaped == found_bs,
            scan(v@, i as int).after_space == found_space,
            scan(v@, i as int).quoted == with_quote,
            scan(v@, i as int).quote == ch_quote,
            start_position == boff(v@, scan(v@, i as int).start),
        decreases v@.len() - i,
    {
        let c = v[i];
        proof {
            lemma_boff_step(v@, i as int);
            lemma_boff_mono(v@, i + 1, v@.len() as int);
            lemma_scan_start(v@, i as int);
        }
        if found_space {
            found_space = false;
            start_position = pos;
        }
        pos = pos + char_len(c);
        i = i + 1;
        if c == '\\' {
            found_bs = true;
            continue;
        }
        if c == ' ' && !found_bs && !with_quote {
            found_space = true;
            continue;
        }
        if !with_quote && !found_bs && (c == '"' || c == '\'') {
            with_quote = true;
            ch_quote = c;
        } else if with_quote && !found_bs && ch_quote == c {
            with_quote = false;
        }
        found_bs = false;
    }
    if found_space {
        start_position = total;
    }
    start_position
}

/// The start of the last word is a character boundary of the line, so the
/// line can be cut there.
pub proof fn lemma_word_start_boundary(s: Seq<char>)
    ensures
        is_boundary(s, word_start_spec(s) as int),
        word_start_spec(s) <= blen(s),
{
    let st = scan(s, s.len() as int);
    lemma_scan_start(s, s.len() as int);
    assert(s.take(s.len() as int) =~= s);
    lemma_boff_mono(s, st.start, s.len() as int);
    if st.after_space {
        lemma_idx_of(s, s.len() as int);
    } else {
        lemma_idx_of(s, st.start);
    }
}


/// The names in `names` that start with `word`, in their order.
pub open spec fn with_prefix(names: Seq<Seq<char>>, word: Seq<char>) -> Seq<Seq<char>>
    decreases names.len(),
{
    if names.len() == 0 {
        Seq::empty()
    } else {
        let r = with_prefix(names.drop_last(), word);
        if word.is_prefix_of(names.last()) {
            r.push(names.last())
        } else {
            r
        }
    }
}

/// Appends to `out` the names in `names` that start with `word`.
pub fn push_prefixed(out: &mut Vec<String>, names: &Vec<String>, word: &str)
    ensures
        strings_view(final(out)@) == strings_view(old(out)@) + with_prefix(strings_view(names@), word@),
{
    let ghost start = strings_view(out@);
    let mut i: usize = 0;
    while i < names.len()
        invariant
            i <= names@.len(),
            strings_view(out@) == start + with_prefix(strings_view(names@.take(i as int)), word@),
        decreases names@.len() - i,
    {
        let ghost before = strings_view(out@);
        proof {
            assert(strings_view(names@.take(i + 1)).drop_last() =~= strings_view(names@.take(i as int)));
            assert(strings_view(names@.take(i + 1)).last() == names@[i as int]@);
        }
        if str_starts_with(names[i].as_str(), word) {
            out.push(names[i].clone());
            proof {
                assert(strings_view(out@) =~= before.push(names@[i as int]@));
            }
        }
        i = i + 1;
    }
    proof {
        assert(names@.take(names@.len() as int) =~= names@);
    }
}


/// A completion list made by `with_prefix` holds exactly the names that
/// start with the word: each of them, in their order, and nothing else.
pub proof fn lemma_with_prefix(names: Seq<Seq<char>>, word: Seq<char>)
    ensures
        forall|i: int|
            0 <= i < with_prefix(names, word).len() ==> word.is_prefix_of(#[trigger] with_prefix(names, word)[i])
                && names.contains(with_prefix(names, word)[i]),
        forall|n: Seq<char>| #[trigger] names.contains(n) && word.is_prefix_of(n) ==> with_prefix(names, word).contains(n),
        with_prefix(names, word).len() <= names.len(),
    decreases names.len(),
{
    if names.len() > 0 {
        let prev = with_prefix(names.drop_last(), word);
        lemma_with_prefix(names.drop_last(), word);
        let r = with_prefix(names, word);
        assert forall|i: int| 0 <= i < r.len() implies word.is_prefix_of(#[trigger] r[i]) && names.contains(r[i]) by {
            if i < prev.len() {
                let k = choose|k: int| 0 <= k < names.drop_last().len() && names.drop_last()[k] == prev[i];
                assert(names[k] == prev[i]);
            } else {
                assert(names[names.len() - 1] == r[i]);
            }
        }
        assert forall|n: Seq<char>| #[trigger] names.contains(n) && word.is_prefix_of(n) implies r.contains(n) by {
            let k = choose|k: int| 0 <= k < names.len() && names[k] == n;
            if k < names.len() - 1 {
                assert(names.drop_last()[k] == n);
                assert(names.drop_last().contains(n));
                assert(prev.contains(n));
                let j = choose|j: int| 0 <= j < prev.len() && prev[j] == n;
                assert(r[j] == n);
            } else {
                assert(r[r.len() - 1] == n);
            }
        }
    }
}

/// Which completer completes a word.
#[derive(Clone, Copy, Debug, PartialEq, Eq, Structural)]
pub enum CompleterKind {
    Dots,
    Ssh,
    Make,
    Bin,
    Env,
    Cd,
    Path,
}

/// The completer for a line, from which of them apply to it, in order of
/// precedence: a completion file, ssh hosts, make targets, command names,
/// variables, `cd` directories; paths when none does.
pub open spec fn completer_for_spec(dots: bool, ssh: bool, make: bool, bin: bool, env: bool, cd: bool) -> CompleterKind {
    if dots {
        CompleterKind::Dots
    } else if ssh {
        CompleterKind::Ssh
    } else if make {
        CompleterKind::Make
    } else if bin {
        CompleterKind::Bin
    } else if env {
        CompleterKind::Env
    } else if cd {
        CompleterKind::Cd
    } else {
        CompleterKind::Path
    }
}

/// The completer for a line (see `completer_for_spec`).
pub fn completer_for(dots: bool, ssh: bool, make: bool, bin: bool, env: bool, cd: bool) -> (k: CompleterKind)
    ensures
        k == completer_for_spec(dots, ssh, make, bin, env, cd),
{
    if dots {
        CompleterKind::Dots
    } else if ssh {
        CompleterKind::Ssh
    } else if make {
        CompleterKind::Make
    } else if bin {
        CompleterKind::Bin
    } else if env {
        CompleterKind::Env
    } else if cd {
        CompleterKind::Cd
    } else {
        CompleterKind::Path
    }
}

/// Whether paths are completed after the completer `kind` gave `found`
/// completions: when it found none, except for `cd`, whose answer stands.
pub fn falls_back_to_path(kind: CompleterKind, found: usize) -> (b: bool)
    ensures
        b == (kind != CompleterKind::Path && kind != CompleterKind::Cd && found == 0),
{
    kind != CompleterKind::Path && kind != CompleterKind::Cd && found == 0
}

} // verus!
