//! The Up and Down keys: history search by the prefix typed so far.
use vstd::prelude::*;

use crate::text::chars_of;

verus! {

/// Steps back through the history to the previous entry that starts with
/// the text typed before the search began.
pub struct UpKeyFunction;

/// Steps forward through the history to the next entry that starts with
/// the text typed before the search began.
pub struct DownKeyFunction;

/// The key sequence of the Up arrow.
pub const SEQ_UP_KEY: &'static str = "\x1b[A";

/// The key sequence of the Down arrow.
pub const SEQ_DOWN_KEY: &'static str = "\x1b[B";

/// `s` starts with `p`.
pub open spec fn has_prefix(s: Seq<char>, p: Seq<char>) -> bool {
    p.len() <= s.len() && s.take(p.len() as int) == p
}

/// The last entry before index `k` that starts with `line`.
pub open spec fn last_match_before(h: Seq<Seq<char>>, k: int, line: Seq<char>) -> Option<int>
    decreases k,
{
    if k <= 0 {
        None
    } else if has_prefix(h[k - 1], line) {
        Some(k - 1)
    } else {
        last_match_before(h, k - 1, line)
    }
}

/// The first entry at or after index `k` that starts with `line`.
pub open spec fn first_match_from(h: Seq<Seq<char>>, k: int, line: Seq<char>) -> Option<int>
    decreases h.len() - k,
{
    if k < 0 || k >= h.len() {
        None
    } else if has_prefix(h[k], line) {
        Some(k)
    } else {
        first_match_from(h, k + 1, line)
    }
}

/// The history entry that the Up key selects, if any. Outside a history
/// search (`index` is `None` or the history length) it is the last entry
/// that starts with the typed line. During a search it is the last entry
/// before the current one that starts with the text typed before the
/// search began; when there is none, the first entry that does.
pub open spec fn up_target(h: Seq<Seq<char>>, index: Option<usize>, buffer: Seq<char>, backup: Seq<char>) -> Option<int> {
    let len = h.len() as int;
    let hi = match index {
        Some(x) => x as int,
        None => len,
    };
    if hi == len {
        last_match_before(h, len, buffer)
    } else {
        let below = if hi < len { hi } else { len };
        match last_match_before(h, below, backup) {
            Some(j) => Some(j),
            None => first_match_from(h, hi, backup),
        }
    }
}

/// The history entry that the Down key selects, if any: during a history
/// search, the first entry after the current one that starts with the text
/// typed before the search began; outside a search, none.
pub open spec fn down_target(h: Seq<Seq<char>>, index: Option<usize>, backup: Seq<char>) -> Option<int> {
    let len = h.len() as int;
    let hi = match index {
        Some(x) => x as int,
        None => len,
    };
    if hi == len {
        None
    } else {
        first_match_from(h, hi + 1, backup)
    }
}

/// The entries as character sequences.
pub open spec fn history_view(h: Seq<String>) -> Seq<Seq<char>> {
    Seq::new(h.len(), |i: int| h[i]@)
}

/// Whether `s` starts with `p`.
fn starts_with(s: &str, p: &Vec<char>) -> (b: bool)
    ensures
        b == has_prefix(s@, p@),
{
    let v = chars_of(s);
    if p.len() > v.len() {
        return false;
    }
    let mut i: usize = 0;
    while i < p.len()
        invariant
            v@ == s@,
            p@.len() <= v@.len(),
            i <= p@.len(),
            forall|j: int| 0 <= j < i ==> v@[j] == p@[j],
        decreases p@.len() - i,
    {
        if v[i] != p[i] {
            assert(s@.take(p@.len() as int)[i as int] != p@[i as int]);
            return false;
        }
        i = i + 1;
    }
    assert(s@.take(p@.len() as int) =~= p@);
    true
}

/// The index in `o`, or `d` when there is none.
pub open spec fn index_or(o: Option<int>, d: int) -> int {
    match o {
        Some(j) => j,
        None => d,
    }
}

/// Entries in `[a, b)` that do not start with `line` change neither search.
proof fn lemma_no_match_range(h: Seq<Seq<char>>, a: int, b: int, line: Seq<char>)
    requires
        0 <= a <= b <= h.len(),
        forall|j: int| a <= j < b ==> !has_prefix(#[trigger] h[j], line),
    ensures
        last_match_before(h, b, line) == last_match_before(h, a, line),
        first_match_from(h, a, line) == first_match_from(h, b, line),
    decreases b - a,
{
    if a < b {
        lemma_no_match_range(h, a, b - 1, line);
        lemma_no_match_range(h, a + 1, b, line);
        assert(!has_prefix(h[b - 1], line));
        assert(!has_prefix(h[a], line));
    }
}

/// A search finds an entry at or after where it starts.
proof fn lemma_first_match_bounds(h: Seq<Seq<char>>, k: int, line: Seq<char>)
    ensures
        match first_match_from(h, k, line) {
            Some(j) => k <= j < h.len(),
            None => true,
        },
    decreases h.len() - k,
{
    if 0 <= k < h.len() && !has_prefix(h[k], line) {
        lemma_first_match_bounds(h, k + 1, line);
    }
}

/// A search from past the end finds nothing.
proof fn lemma_first_match_past_end(h: Seq<Seq<char>>, k: int, line: Seq<char>)
    requires
        k >= h.len(),
    ensures
        first_match_from(h, k, line) is None,
{
}

impl UpKeyFunction {
    /// The history entry to select when Up is pressed, given the history,
    /// the index of the entry shown (`None` when none is), the line typed
    /// and the line typed before the history search began.
    pub fn target(&self, history: &[String], index: Option<usize>, buffer: &str, backup: &str) -> (r: Option<usize>)
        ensures
            match up_target(history_view(history@), index, buffer@, backup@) {
                Some(j) => r == Some(j as usize),
                None => r is None,
            },
    {
        let ghost h = history_view(history@);
        let len = history.len();
        let history_index = match index {
            Some(x) => x,
            None => len,
        };
        let line = if history_index == len { chars_of(buffer) } else { chars_of(backup) };
        let ghost below: int = if history_index < len { history_index as int } else { len as int };
        let mut n = len;
        let mut done = false;
        let mut i: usize = 0;
        while i < len && !done
            invariant
                len == history@.len(),
                h == history_view(history@),
                line@ == (if history_index == len { buffer@ } else { backup@ }),
                below == (if history_index < len { history_index as int } else { len as int }),
                history_index == (match index {
                    Some(x) => x,
                    None => len,
                }),
                i <= len,
                !done ==> (history_index == len ==> n == len),
                !done ==> (history_index == len ==> forall|j: int| len - i <= j < len ==> !has_prefix(#[trigger] h[j], line@)),
                !done ==> (history_index != len ==> n == index_or(first_match_from(h, len - i, line@), len as int)),
                !done ==> (history_index != len ==> forall|j: int| len - i <= j < below ==> !has_prefix(#[trigger] h[j], line@)),
                done ==> n < len,
                done ==> (history_index == len ==> last_match_before(h, len as int, line@) == Some(n as int)),
                done ==> (history_index != len ==> last_match_before(h, below, line@) == Some(n as int)),
            decreases len - i,
        {
            let j = len - i - 1;
            proof {
                assert(h[j as int] == history@[j as int]@);
            }
            if starts_with(history[j].as_str(), &line) {
                n = j;
                if history_index == len {
                    proof {
                        lemma_no_match_range(h, j + 1, len as int, line@);
                    }
                    done = true;
                } else if n < history_index {
                    proof {
                        if j + 1 < below {
                            lemma_no_match_range(h, j + 1, below, line@);
                        }
                    }
                    done = true;
                }
            }
            i = i + 1;
        }
        proof {
            lemma_first_match_bounds(h, 0, line@);
            if !done && history_index != len {
                if below > 0 {
                    lemma_no_match_range(h, 0, below, line@);
                }
                if history_index > len {
                    lemma_first_match_past_end(h, history_index as int, line@);
                    lemma_no_match_range(h, 0, len as int, line@);
                } else {
                    assert(below == history_index);
                }
            }
            if !done && history_index == len {
                lemma_no_match_range(h, 0, len as int, line@);
            }
        }
        if n < len {
            Some(n)
        } else {
            None
        }
    }
}

impl DownKeyFunction {
    /// The history entry to select when Down is pressed, given the history,
    /// the index of the entry shown (`None` when none is) and the line typed
    /// before the history search began.
    pub fn target(&self, history: &[String], index: Option<usize>, backup: &str) -> (r: Option<usize>)
        ensures
            match down_target(history_view(history@), index, backup@) {
                Some(j) => r == Some(j as usize),
                None => r is None,
            },
    {
        let ghost h = history_view(history@);
        let len = history.len();
        let history_index = match index {
            Some(x) => x,
            None => len,
        };
        if history_index == len {
            return None;
        }
        let line = chars_of(backup);
        let mut i: usize = 0;
        while i < len
            invariant
                len == history@.len(),
                h == history_view(history@),
                line@ == backup@,
                history_index != len,
                history_index == (match index {
                    Some(x) => x,
                    None => len,
                }),
                i <= len,
                forall|j: int| history_index < j < i ==> !has_prefix(#[trigger] h[j], line@),
            decreases len - i,
        {
            proof {
                assert(h[i as int] == history@[i as int]@);
            }
            if starts_with(history[i].as_str(), &line) && i > history_index {
                proof {
                    lemma_no_match_range(h, history_index + 1, i as int, line@);
                    assert(first_match_from(h, i as int, line@) == Some(i as int));
                }
                return Some(i);
            }
            i = i + 1;
        }
        proof {
            if history_index + 1 <= len {
                lemma_no_match_range(h, history_index + 1, len as int, line@);
            }
        }
        None
    }
}

/// A backward search finds an entry before where it starts that starts
/// with the text searched for.
proof fn lemma_last_match(h: Seq<Seq<char>>, k: int, line: Seq<char>)
    requires
        k <= h.len(),
    ensures
        match last_match_before(h, k, line) {
            Some(j) => 0 <= j < k && has_prefix(h[j], line),
            None => true,
        },
    decreases k,
{
    if k > 0 && !has_prefix(h[k - 1], line) {
        lemma_last_match(h, k - 1, line);
    }
}

/// A forward search finds an entry at or after where it starts that starts
/// with the text searched for.
proof fn lemma_first_match(h: Seq<Seq<char>>, k: int, line: Seq<char>)
    ensures
        match first_match_from(h, k, line) {
            Some(j) => k <= j < h.len() && has_prefix(h[j], line),
            None => true,
        },
    decreases h.len() - k,
{
    if 0 <= k < h.len() && !has_prefix(h[k], line) {
        lemma_first_match(h, k + 1, line);
    }
}

/// The entry that Up selects is in the history and starts with the text
/// searched for: the line typed, or, during a history search, the line
/// typed before the search began.
pub proof fn lemma_up_target_matches(h: Seq<Seq<char>>, index: Option<usize>, buffer: Seq<char>, backup: Seq<char>)
    ensures
        match up_target(h, index, buffer, backup) {
            Some(j) => 0 <= j < h.len() && has_prefix(
                h[j],
                if index is None || index.unwrap() == h.len() { buffer } else { backup },
            ),
            None => true,
        },
{
    let len = h.len() as int;
    let hi = match index {
        Some(x) => x as int,
        None => len,
    };
    if hi == len {
        lemma_last_match(h, len, buffer);
    } else {
        let below = if hi < len { hi } else { len };
        lemma_last_match(h, below, backup);
        lemma_first_match(h, hi, backup);
    }
}

/// The entry that Down selects comes after the one shown and starts with
/// the line typed before the history search began; outside a search Down
/// selects nothing.
pub proof fn lemma_down_target_matches(h: Seq<Seq<char>>, index: Option<usize>, backup: Seq<char>)
    ensures
        match down_target(h, index, backup) {
            Some(j) => index is Some && index.unwrap() < j < h.len() && has_prefix(h[j], backup),
            None => true,
        },
{
    let len = h.len() as int;
    if index is Some && index.unwrap() != len {
        lemma_first_match(h, index.unwrap() + 1, backup);
    }
}

/// `has_prefix` is "the first characters of `s` are those of `p`".
proof fn lemma_has_prefix_chars(s: Seq<char>, p: Seq<char>)
    ensures
        has_prefix(s, p) <==> (p.len() <= s.len() && forall|i: int| 0 <= i < p.len() ==> s[i] == p[i]),
{
    if p.len() <= s.len() && forall|i: int| 0 <= i < p.len() ==> s[i] == p[i] {
        assert(s.take(p.len() as int) =~= p);
    }
    if has_prefix(s, p) {
        assert forall|i: int| 0 <= i < p.len() implies s[i] == p[i] by {
            assert(s.take(p.len() as int)[i] == s[i]);
        }
    }
}

/// A backward search from `k` finds the last entry before `k` that starts
/// with `line`, and finds one whenever there is one.
proof fn lemma_last_match_latest(h: Seq<Seq<char>>, k: int, line: Seq<char>)
    requires
        k <= h.len(),
    ensures
        forall|m: int| 0 <= m < k && #[trigger] has_prefix(h[m], line) ==> (last_match_before(h, k, line) matches Some(j) && m <= j),
        last_match_before(h, k, line) matches Some(j) ==> forall|m: int| j < m < k ==> !#[trigger] has_prefix(h[m], line),
    decreases k,
{
    if k > 0 {
        lemma_last_match_latest(h, k - 1, line);
    }
}

/// Outside a history search, Up selects the latest entry whose first
/// characters are the line typed, and finds one whenever one exists; an
/// entry equal to the line typed is such an entry.
pub proof fn lemma_up_latest_match(h: Seq<Seq<char>>, buffer: Seq<char>, backup: Seq<char>)
    ensures
        forall|k: int|
            0 <= k < h.len() && buffer.len() <= h[k].len() && (forall|i: int| 0 <= i < buffer.len() ==> #[trigger] h[k][i] == buffer[i])
                ==> (up_target(h, None, buffer, backup) matches Some(j) && k <= j),
        forall|k: int| 0 <= k < h.len() && h[k] == buffer ==> (up_target(h, None, buffer, backup) matches Some(j) && k <= j),
        up_target(h, None, buffer, backup) matches Some(j) ==> {
            &&& 0 <= j < h.len()
            &&& buffer.len() <= h[j].len()
            &&& forall|i: int| 0 <= i < buffer.len() ==> #[trigger] h[j][i] == buffer[i]
            &&& forall|m: int| j < m < h.len() ==> !(buffer.len() <= h[m].len() && forall|i: int| 0 <= i < buffer.len() ==> #[trigger] h[m][i] == buffer[i])
        },
{
    let len = h.len() as int;
    lemma_last_match_latest(h, len, buffer);
    lemma_last_match(h, len, buffer);
    assert forall|k: int|
        0 <= k < h.len() && buffer.len() <= h[k].len() && (forall|i: int| 0 <= i < buffer.len() ==> #[trigger] h[k][i] == buffer[i])
        implies (up_target(h, None, buffer, backup) matches Some(j) && k <= j) by {
        lemma_has_prefix_chars(h[k], buffer);
    }
    assert forall|k: int| 0 <= k < h.len() && h[k] == buffer implies (up_target(h, None, buffer, backup) matches Some(j) && k <= j) by {
        lemma_has_prefix_chars(h[k], buffer);
    }
    if let Some(j) = up_target(h, None, buffer, backup) {
        lemma_has_prefix_chars(h[j], buffer);
        assert forall|m: int| j < m < h.len() implies !(buffer.len() <= h[m].len() && forall|i: int| 0 <= i < buffer.len() ==> #[trigger] h[m][i] == buffer[i]) by {
            lemma_has_prefix_chars(h[m], buffer);
        }
    }
}

/// During a history search from entry `hi`, Up selects the latest entry
/// before `hi` whose first characters are the line typed before the search
/// began, whenever there is one.
pub proof fn lemma_up_search_latest_before(h: Seq<Seq<char>>, hi: usize, buffer: Seq<char>, backup: Seq<char>)
    requires
        hi < h.len(),
    ensures
        forall|k: int|
            0 <= k < hi && backup.len() <= h[k].len() && (forall|i: int| 0 <= i < backup.len() ==> #[trigger] h[k][i] == backup[i])
                ==> (up_target(h, Some(hi), buffer, backup) matches Some(j) && k <= j < hi && backup.len() <= h[j].len()
                && (forall|i: int| 0 <= i < backup.len() ==> #[trigger] h[j][i] == backup[i])),
{
    lemma_last_match_latest(h, hi as int, backup);
    lemma_last_match(h, hi as int, backup);
    assert forall|k: int|
        0 <= k < hi && backup.len() <= h[k].len() && (forall|i: int| 0 <= i < backup.len() ==> #[trigger] h[k][i] == backup[i])
        implies (up_target(h, Some(hi), buffer, backup) matches Some(j) && k <= j < hi && backup.len() <= h[j].len()
            && (forall|i: int| 0 <= i < backup.len() ==> #[trigger] h[j][i] == backup[i])) by {
        lemma_has_prefix_chars(h[k], backup);
        let j = last_match_before(h, hi as int, backup).unwrap();
        lemma_has_prefix_chars(h[j], backup);
    }
}

/// A forward search from `k` finds the first entry at or after `k` that
/// starts with `line`, and finds one whenever there is one.
proof fn lemma_first_match_earliest(h: Seq<Seq<char>>, k: int, line: Seq<char>)
    requires
        0 <= k,
    ensures
        forall|m: int| k <= m < h.len() && #[trigger] has_prefix(h[m], line) ==> (first_match_from(h, k, line) matches Some(j) && j <= m),
        first_match_from(h, k, line) matches Some(j) ==> forall|m: int| k <= m < j ==> !#[trigger] has_prefix(h[m], line),
    decreases h.len() - k,
{
    if k < h.len() {
        lemma_first_match_earliest(h, k + 1, line);
    }
}

/// During a history search from entry `hi`, Down selects the first entry
/// after `hi` whose first characters are the line typed before the search
/// began, whenever there is one.
pub proof fn lemma_down_earliest_match(h: Seq<Seq<char>>, hi: usize, backup: Seq<char>)
    requires
        hi < h.len(),
    ensures
        forall|k: int|
            hi < k < h.len() && backup.len() <= h[k].len() && (forall|i: int| 0 <= i < backup.len() ==> #[trigger] h[k][i] == backup[i])
                ==> (down_target(h, Some(hi), backup) matches Some(j) && hi < j <= k),
        down_target(h, Some(hi), backup) matches Some(j) ==> {
            &&& hi < j < h.len()
            &&& backup.len() <= h[j].len()
            &&& forall|i: int| 0 <= i < backup.len() ==> #[trigger] h[j][i] == backup[i]
            &&& forall|m: int| hi < m < j ==> !(backup.len() <= h[m].len() && forall|i: int| 0 <= i < backup.len() ==> #[trigger] h[m][i] == backup[i])
        },
{
    lemma_first_match_earliest(h, hi + 1, backup);
    lemma_first_match(h, hi + 1, backup);
    assert forall|k: int|
        hi < k < h.len() && backup.len() <= h[k].len() && (forall|i: int| 0 <= i < backup.len() ==> #[trigger] h[k][i] == backup[i])
        implies (down_target(h, Some(hi), backup) matches Some(j) && hi < j <= k) by {
        lemma_has_prefix_chars(h[k], backup);
    }
    if let Some(j) = down_target(h, Some(hi), backup) {
        lemma_has_prefix_chars(h[j], backup);
        assert forall|m: int| hi < m < j implies !(backup.len() <= h[m].len() && forall|i: int| 0 <= i < backup.len() ==> #[trigger] h[m][i] == backup[i]) by {
            lemma_has_prefix_chars(h[m], backup);
        }
    }
}

} // verus!
