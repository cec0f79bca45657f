//! Syntax highlighting of command lines: commands in command position are
//! shown in green.
use vstd::prelude::*;

use std::ops::Range;
use std::sync::Arc;

use crate::dispatch::{builtin_of, builtin_spec};
use crate::linefeed::highlighting::{Style, StyleView};
use crate::text::{
    blen, boff, byte_to_index, chars_of, idx_of, index_to_byte, is_boundary, is_whitespace, is_ws,
    lemma_boff_mono, str_eq, str_len,
};

verus! {

/// ANSI green, wrapped in the markers that tell the line reader that the
/// codes take no room on the screen.
pub const GREEN: &'static str = "\x01\x1b[0;32m\x02";

/// Highlights the commands of a command line.
#[derive(Clone)]
pub struct CicadaHighlighter;

/// A highlighter, shared.
pub fn create_highlighter() -> (h: Arc<CicadaHighlighter>) {
    Arc::new(CicadaHighlighter)
}

/// Index of the first character at or after `k` that is not whitespace.
pub open spec fn first_non_ws(s: Seq<char>, k: int) -> Option<int>
    decreases s.len() - k,
{
    if k < 0 || k >= s.len() {
        None
    } else if !is_ws(s[k]) {
        Some(k)
    } else {
        first_non_ws(s, k + 1)
    }
}

/// `p` occurs in `s` at index `i`.
pub open spec fn has_prefix_at(s: Seq<char>, i: int, p: Seq<char>) -> bool {
    0 <= i && i + p.len() <= s.len() && s.subrange(i, i + p.len()) == p
}

/// The characters, as start and end indices into `line`, that a token with
/// separator `sep` and text `word` is taken to cover when the search starts
/// at index `k`.
///
/// The token starts at the first character that is not whitespace; the
/// search counts that character's byte offset from `k` as a number of
/// characters to skip from `k` (when that many remain, else none). From
/// there the token is the separator, the word and the separator again, as
/// far as they are found; or, failing the word, the word alone.
pub open spec fn token_range_spec(line: Seq<char>, k: int, sep: Seq<char>, word: Seq<char>) -> Option<(int, int)> {
    match first_non_ws(line, k) {
        None => None,
        Some(j) => {
            let b = boff(line.skip(k), j - k) as int;
            let ts = k + (if b < line.len() - k { b } else { 0 });
            let lead = if sep.len() > 0 && has_prefix_at(line, ts, sep) { sep.len() as int } else { 0 };
            if has_prefix_at(line, ts + lead, word) {
                let trail = if sep.len() > 0 && has_prefix_at(line, ts + lead + word.len(), sep) {
                    sep.len() as int
                } else {
                    0
                };
                Some((ts, ts + lead + word.len() + trail))
            } else if word.len() == 0 && sep.len() > 0 && has_prefix_at(line, ts, sep) && has_prefix_at(
                line,
                ts + sep.len(),
                sep,
            ) {
                Some((ts, ts + 2 * sep.len()))
            } else if has_prefix_at(line, ts, word) {
                Some((ts, ts + word.len()))
            } else {
                None
            }
        },
    }
}

/// Byte offsets add up over a split of the sequence.
proof fn lemma_boff_split(s: Seq<char>, k: int, j: int)
    requires
        0 <= k <= j <= s.len(),
    ensures
        boff(s, j) == boff(s, k) + boff(s.skip(k), j - k),
{
    assert(s.take(j) =~= s.take(k) + s.skip(k).take(j - k));
    crate::text::lemma_blen_concat(s.take(k), s.skip(k).take(j - k));
}

/// The first character that is not whitespace lies in the line, after `k`.
proof fn lemma_first_non_ws(s: Seq<char>, k: int)
    requires
        0 <= k,
    ensures
        match first_non_ws(s, k) {
            Some(j) => k <= j < s.len() && !is_ws(s[j]),
            None => forall|t: int| k <= t < s.len() ==> is_ws(s[t]),
        },
    decreases s.len() - k,
{
    if k < s.len() && is_ws(s[k]) {
        lemma_first_non_ws(s, k + 1);
    }
}

/// A token's range lies inside the line and starts at or after `k`.
proof fn lemma_token_range_bounds(line: Seq<char>, k: int, sep: Seq<char>, word: Seq<char>)
    requires
        0 <= k <= line.len(),
    ensures
        match token_range_spec(line, k, sep, word) {
            Some((s, e)) => k <= s <= e <= line.len(),
            None => true,
        },
{
    lemma_first_non_ws(line, k);
}

/// Whether `p` occurs in `v` at index `i`.
fn prefix_at(v: &Vec<char>, i: usize, p: &Vec<char>) -> (b: bool)
    ensures
        b == has_prefix_at(v@, i as int, p@),
{
    let n = v.len();
    if i > n || p.len() > n - i {
        return false;
    }
    let mut t: usize = 0;
    while t < p.len()
        invariant
            n == v@.len(),
            i + p@.len() <= v@.len(),
            t <= p@.len(),
            forall|u: int| 0 <= u < t ==> v@[i + u] == p@[u],
        decreases p@.len() - t,
    {
        if v[i + t] != p[t] {
            assert(v@.subrange(i as int, i + p@.len())[t as int] != p@[t as int]);
            return false;
        }
        t = t + 1;
    }
    assert(v@.subrange(i as int, i + p@.len()) =~= p@);
    true
}

/// Index of the first character at or after `k` that is not whitespace.
fn first_non_ws_from(v: &Vec<char>, k: usize) -> (r: Option<usize>)
    requires
        k <= v@.len(),
    ensures
        match first_non_ws(v@, k as int) {
            Some(j) => r == Some(j as usize) && k <= j < v@.len(),
            None => r is None,
        },
{
    proof {
        lemma_first_non_ws(v@, k as int);
    }
    let mut j = k;
    while j < v.len() && is_whitespace(v[j])
        invariant
            k <= j <= v@.len(),
            first_non_ws(v@, k as int) == first_non_ws(v@, j as int),
        decreases v@.len() - j,
    {
        j = j + 1;
    }
    if j < v.len() {
        Some(j)
    } else {
        None
    }
}

/// The character range of a token, searched from index `k` (see
/// `token_range_spec`).
fn token_range(v: &Vec<char>, k: usize, sep: &Vec<char>, word: &Vec<char>) -> (r: Option<(usize, usize)>)
    requires
        k <= v@.len(),
        blen(v@) <= usize::MAX,
    ensures
        match token_range_spec(v@, k as int, sep@, word@) {
            Some((s, e)) => r == Some((s as usize, e as usize)),
            None => r is None,
        },
{
    proof {
        lemma_token_range_bounds(v@, k as int, sep@, word@);
    }
    let n = v.len();
    let found = first_non_ws_from(v, k);
    if found.is_none() {
        return None;
    }
    let j = found.unwrap();
    proof {
        lemma_first_non_ws(v@, k as int);
        lemma_boff_split(v@, k as int, j as int);
        lemma_boff_mono(v@, j as int, v@.len() as int);
        assert(v@.take(v@.len() as int) =~= v@);
    }
    let b = index_to_byte(v, j) - index_to_byte(v, k);
    let ts = k + if b < v.len() - k { b } else { 0 };
    let lead: usize = if sep.len() > 0 && prefix_at(v, ts, sep) { sep.len() } else { 0 };
    if ts + lead <= v.len() && prefix_at(v, ts + lead, word) {
        let trail: usize = if sep.len() > 0 && ts + lead + word.len() <= v.len() && prefix_at(v, ts + lead + word.len(), sep) {
            sep.len()
        } else {
            0
        };
        Some((ts, ts + lead + word.len() + trail))
    } else if word.len() == 0 && sep.len() > 0 && prefix_at(v, ts, sep) && prefix_at(v, ts + sep.len(), sep) {
        Some((ts, ts + 2 * sep.len()))
    } else if prefix_at(v, ts, word) {
        Some((ts, ts + word.len()))
    } else {
        None
    }
}

/// The byte range that a token `(separator, word)` takes in `line`, when
/// the search starts at byte `start_byte` (see `token_range_spec`), or
/// `None` when the token cannot be found there.
pub fn find_token_range_heuristic(line: &str, start_byte: usize, token: &(String, String)) -> (r: Option<Range<usize>>)
    requires
        is_boundary(line@, start_byte as int),
    ensures
        match token_range_spec(line@, idx_of(line@, start_byte as int), token.0@, token.1@) {
            Some((s, e)) => r is Some && r.unwrap().start == boff(line@, s) && r.unwrap().end == boff(line@, e),
            None => r is None,
        },
{
    let v = chars_of(line);
    let n = str_len(line);
    let k = byte_to_index(&v, start_byte);
    let sep = chars_of(token.0.as_str());
    let word = chars_of(token.1.as_str());
    match token_range(&v, k, &sep, &word) {
        Some((s, e)) => {
            proof {
                lemma_token_range_bounds(v@, k as int, sep@, word@);
            }
            Some(index_to_byte(&v, s)..index_to_byte(&v, e))
        },
        None => None,
    }
}

/// The words after which a new command starts.
pub open spec fn ends_segment(word: Seq<char>) -> bool {
    word == "|"@ || word == "&&"@ || word == "||"@ || word == ";"@
}

/// A styled byte range.
pub type StyledRange = (int, int, StyleView);

/// The walk over the tokens of a line: the character index reached,
/// whether the next word is in command position, the styled ranges so far,
/// and whether the walk stopped at a token it could not find.
pub struct HighlightState {
    pub cur: int,
    pub segment_start: bool,
    pub styles: Seq<StyledRange>,
    pub done: bool,
}

/// One token walked over: the whitespace before it in the default style,
/// then the token, green when it is a known command in command position.
/// A token that cannot be found ends the walk with the rest of the line in
/// the default style.
pub open spec fn highlight_step(
    line: Seq<char>,
    st: HighlightState,
    sep: Seq<char>,
    word: Seq<char>,
    commands: Seq<Seq<char>>,
) -> HighlightState {
    if st.done {
        st
    } else {
        match token_range_spec(line, st.cur, sep, word) {
            Some((s, e)) => {
                let before = if s > st.cur {
                    st.styles.push((boff(line, st.cur) as int, boff(line, s) as int, StyleView::Default))
                } else {
                    st.styles
                };
                let is_cmd = st.segment_start && word.len() > 0 && known_command(word, commands);
                let style = if is_cmd { StyleView::AnsiColor(GREEN@) } else { StyleView::Default };
                let seg = if st.segment_start && word.len() > 0 { false } else { st.segment_start };
                HighlightState {
                    cur: e,
                    segment_start: if ends_segment(word) { true } else { seg },
                    styles: before.push((boff(line, s) as int, boff(line, e) as int, style)),
                    done: false,
                }
            },
            None => HighlightState {
                cur: line.len() as int,
                segment_start: st.segment_start,
                styles: if st.cur < line.len() {
                    st.styles.push((boff(line, st.cur) as int, blen(line) as int, StyleView::Default))
                } else {
                    st.styles
                },
                done: true,
            },
        }
    }
}

/// The walk over the first `n` tokens.
pub open spec fn highlight_walk(
    line: Seq<char>,
    tokens: Seq<(Seq<char>, Seq<char>)>,
    commands: Seq<Seq<char>>,
    n: int,
) -> HighlightState
    decreases n,
{
    if n <= 0 {
        HighlightState { cur: 0, segment_start: true, styles: Seq::empty(), done: false }
    } else {
        highlight_step(
            line,
            highlight_walk(line, tokens, commands, n - 1),
            tokens[n - 1].0,
            tokens[n - 1].1,
            commands,
        )
    }
}

/// The styled ranges of `line`, split into `tokens`, where `commands` are
/// the names that count as commands.
pub open spec fn highlight_spec(
    line: Seq<char>,
    tokens: Seq<(Seq<char>, Seq<char>)>,
    commands: Seq<Seq<char>>,
) -> Seq<StyledRange> {
    if line.len() == 0 {
        Seq::empty()
    } else if tokens.len() == 0 {
        seq![(0, blen(line) as int, StyleView::Default)]
    } else {
        let st = highlight_walk(line, tokens, commands, tokens.len() as int);
        if st.cur < line.len() {
            st.styles.push((boff(line, st.cur) as int, blen(line) as int, StyleView::Default))
        } else {
            st.styles
        }
    }
}

/// The tokens as pairs of character sequences.
pub open spec fn tokens_view(tokens: Seq<(String, String)>) -> Seq<(Seq<char>, Seq<char>)> {
    Seq::new(tokens.len(), |i: int| (tokens[i].0@, tokens[i].1@))
}

/// The names as character sequences.
pub open spec fn names_view(names: Seq<String>) -> Seq<Seq<char>> {
    Seq::new(names.len(), |i: int| names[i]@)
}

/// The styled ranges as plain values.
pub open spec fn styles_view(styles: Seq<(Range<usize>, Style)>) -> Seq<StyledRange> {
    Seq::new(styles.len(), |i: int| (styles[i].0.start as int, styles[i].0.end as int, styles[i].1@))
}

/// Whether `word` names a command: a builtin, or one of `names`, the
/// aliases and the programs on the search path.
pub open spec fn known_command(word: Seq<char>, names: Seq<Seq<char>>) -> bool {
    builtin_spec(word) is Some || names.contains(word)
}

/// Whether `word` names a command: a builtin, or one of `names`.
fn is_command(word: &str, names: &[String]) -> (b: bool)
    ensures
        b == known_command(word@, names_view(names@)),
{
    if builtin_of(word).is_some() {
        return true;
    }
    let mut i: usize = 0;
    while i < names.len()
        invariant
            i <= names@.len(),
            forall|j: int| 0 <= j < i ==> names@[j]@ != word@,
        decreases names@.len() - i,
    {
        if str_eq(names[i].as_str(), word) {
            assert(names_view(names@)[i as int] == word@);
            return true;
        }
        i = i + 1;
    }
    assert forall|j: int| 0 <= j < names_view(names@).len() implies names_view(names@)[j] != word@ by {}
    false
}

/// Whether `word` ends a command.
fn is_segment_end(word: &str) -> (b: bool)
    ensures
        b == ends_segment(word@),
{
    str_eq(word, "|") || str_eq(word, "&&") || str_eq(word, "||") || str_eq(word, ";")
}

impl CicadaHighlighter {
    /// The styled ranges of `line`, given the tokens that the command-line
    /// parser splits it into and `commands`, the aliases and the programs
    /// found on the search path: the first word of each command is green
    /// when it names a builtin or one of `commands`, everything else has the
    /// default style.
    pub fn highlight_tokens(&self, line: &str, tokens: &[(String, String)], commands: &[String]) -> (r: Vec<(Range<usize>, Style)>)
        ensures
            styles_view(r@) == highlight_spec(line@, tokens_view(tokens@), names_view(commands@)),
    {
        let ghost lv = line@;
        let ghost tv = tokens_view(tokens@);
        let ghost cv = names_view(commands@);
        let mut styles: Vec<(Range<usize>, Style)> = Vec::new();
        let v = chars_of(line);
        let len = str_len(line);
        proof {
            assert(v@.take(v@.len() as int) =~= v@);
        }
        if v.len() == 0 {
            assert(styles_view(styles@) =~= Seq::<StyledRange>::empty());
            return styles;
        }
        if tokens.len() == 0 {
            styles.push((0..len, Style::Default));
            assert(styles_view(styles@) =~= seq![(0, blen(lv) as int, StyleView::Default)]);
            return styles;
        }
        let mut cur: usize = 0;
        let mut segment_start = true;
        let mut done = false;
        let mut i: usize = 0;
        while i < tokens.len()
            invariant
                v@ == lv,
                lv == line@,
                tv == tokens_view(tokens@),
                cv == names_view(commands@),
                len == blen(lv),
                boff(lv, lv.len() as int) == blen(lv),
                i <= tokens@.len(),
                cur <= lv.len(),
                done ==> cur == lv.len(),
                highlight_walk(lv, tv, cv, i as int).cur == cur,
                highlight_walk(lv, tv, cv, i as int).segment_start == segment_start,
                highlight_walk(lv, tv, cv, i as int).done == done,
                highlight_walk(lv, tv, cv, i as int).styles == styles_view(styles@),
            decreases tokens@.len() - i,
        {
            let ghost before = styles_view(styles@);
            proof {
                lemma_boff_mono(lv, cur as int, lv.len() as int);
            }
            if !done {
                let sep = chars_of(tokens[i].0.as_str());
                let word = chars_of(tokens[i].1.as_str());
                assert(tv[i as int] == (sep@, word@));
                assert(highlight_walk(lv, tv, cv, i + 1) == highlight_step(lv, highlight_walk(lv, tv, cv, i as int), sep@, word@, cv));
                match token_range(&v, cur, &sep, &word) {
                    Some((s, e)) => {
                        proof {
                            lemma_token_range_bounds(lv, cur as int, sep@, word@);
                            lemma_boff_mono(lv, s as int, lv.len() as int);
                            lemma_boff_mono(lv, e as int, lv.len() as int);
                        }
                        let bs = index_to_byte(&v, s);
                        let be = index_to_byte(&v, e);
                        if s > cur {
                            let bc = index_to_byte(&v, cur);
                            styles.push((bc..bs, Style::Default));
                        }
                        let mut style = Style::Default;
                        if segment_start && word.len() > 0 {
                            if is_command(tokens[i].1.as_str(), commands) {
                                style = Style::AnsiColor(GREEN.to_string());
                            }
                            segment_start = false;
                        }
                        styles.push((bs..be, style));
                        if is_segment_end(tokens[i].1.as_str()) {
                            segment_start = true;
                        }
                        cur = e;
                    },
                    None => {
                        if cur < v.len() {
                            let bc = index_to_byte(&v, cur);
                            styles.push((bc..len, Style::Default));
                        }
                        cur = v.len();
                        done = true;
                    },
                }
                proof {
                    assert(styles_view(styles@) =~= highlight_walk(lv, tv, cv, i + 1).styles);
                    assert(highlight_walk(lv, tv, cv, i + 1).cur == cur);
                    assert(highlight_walk(lv, tv, cv, i + 1).done == done);
                    assert(highlight_walk(lv, tv, cv, i + 1).segment_start == segment_start);
                }
            } else {
                proof {
                    assert(highlight_walk(lv, tv, cv, i + 1) == highlight_walk(lv, tv, cv, i as int));
                }
            }
            i = i + 1;
        }
        if cur < v.len() {
            proof {
                lemma_boff_mono(lv, cur as int, lv.len() as int);
            }
            let bc = index_to_byte(&v, cur);
            styles.push((bc..len, Style::Default));
        }
        proof {
            assert(styles_view(styles@) =~= highlight_spec(lv, tv, cv));
        }
        styles
    }
}

/// The ranges follow each other without gap or overlap from byte 0 to byte
/// `end`.
pub open spec fn tiles(styles: Seq<StyledRange>, end: int) -> bool {
    &&& styles.len() == 0 ==> end == 0
    &&& styles.len() > 0 ==> styles[0].0 == 0 && styles[styles.len() - 1].1 == end
    &&& forall|i: int| 0 <= i < styles.len() ==> #[trigger] styles[i].0 <= styles[i].1
    &&& forall|i: int| 0 <= i < styles.len() - 1 ==> #[trigger] styles[i].1 == styles[i + 1].0
}

/// Appending a range that starts where the tiling ends extends it.
proof fn lemma_tiles_push(styles: Seq<StyledRange>, end: int, r: StyledRange)
    requires
        tiles(styles, end),
        r.0 == end,
        r.0 <= r.1,
    ensures
        tiles(styles.push(r), r.1),
{
    let t = styles.push(r);
    assert forall|i: int| 0 <= i < t.len() - 1 implies #[trigger] t[i].1 == t[i + 1].0 by {
        if i < styles.len() - 1 {
            assert(t[i] == styles[i] && t[i + 1] == styles[i + 1]);
        } else {
            assert(t[i] == styles[styles.len() - 1]);
        }
    }
    assert forall|i: int| 0 <= i < t.len() implies #[trigger] t[i].0 <= t[i].1 by {
        if i < styles.len() {
            assert(t[i] == styles[i]);
        }
    }
}

/// The walk tiles the line up to where it has reached.
proof fn lemma_walk_tiles(line: Seq<char>, tokens: Seq<(Seq<char>, Seq<char>)>, commands: Seq<Seq<char>>, n: int)
    requires
        0 <= n <= tokens.len(),
    ensures
        0 <= highlight_walk(line, tokens, commands, n).cur <= line.len(),
        highlight_walk(line, tokens, commands, n).done ==> highlight_walk(line, tokens, commands, n).cur == line.len(),
        tiles(highlight_walk(line, tokens, commands, n).styles, boff(line, highlight_walk(line, tokens, commands, n).cur) as int),
    decreases n,
{
    assert(line.take(0) =~= Seq::<char>::empty());
    assert(line.take(line.len() as int) =~= line);
    if n > 0 {
        lemma_walk_tiles(line, tokens, commands, n - 1);
        let st = highlight_walk(line, tokens, commands, n - 1);
        if !st.done {
            let (sep, word) = (tokens[n - 1].0, tokens[n - 1].1);
            lemma_token_range_bounds(line, st.cur, sep, word);
            match token_range_spec(line, st.cur, sep, word) {
                Some((s, e)) => {
                    lemma_boff_mono(line, st.cur, s);
                    lemma_boff_mono(line, s, e);
                    let before = if s > st.cur {
                        st.styles.push((boff(line, st.cur) as int, boff(line, s) as int, StyleView::Default))
                    } else {
                        st.styles
                    };
                    if s > st.cur {
                        lemma_tiles_push(st.styles, boff(line, st.cur) as int, (boff(line, st.cur) as int, boff(line, s) as int, StyleView::Default));
                    }
                    assert(tiles(before, boff(line, s) as int));
                    let is_cmd = st.segment_start && word.len() > 0 && known_command(word, commands);
                    let style = if is_cmd { StyleView::AnsiColor(GREEN@) } else { StyleView::Default };
                    lemma_tiles_push(before, boff(line, s) as int, (boff(line, s) as int, boff(line, e) as int, style));
                },
                None => {
                    lemma_boff_mono(line, st.cur, line.len() as int);
                    if st.cur < line.len() {
                        lemma_tiles_push(st.styles, boff(line, st.cur) as int, (boff(line, st.cur) as int, blen(line) as int, StyleView::Default));
                    }
                },
            }
        }
    }
}

/// Highlighting splits the whole line into styled ranges: they follow each
/// other without gap or overlap from the first byte to the last.
pub proof fn lemma_highlight_tiles(line: Seq<char>, tokens: Seq<(Seq<char>, Seq<char>)>, commands: Seq<Seq<char>>)
    ensures
        tiles(highlight_spec(line, tokens, commands), blen(line) as int),
{
    assert(line.take(line.len() as int) =~= line);
    if line.len() > 0 && tokens.len() > 0 {
        lemma_walk_tiles(line, tokens, commands, tokens.len() as int);
        let st = highlight_walk(line, tokens, commands, tokens.len() as int);
        lemma_boff_mono(line, st.cur, line.len() as int);
        if st.cur < line.len() {
            lemma_tiles_push(st.styles, boff(line, st.cur) as int, (boff(line, st.cur) as int, blen(line) as int, StyleView::Default));
        }
    }
    if line.len() == 0 {
        assert(blen(line) == 0);
    }
}

/// The walk only adds ranges: what it has styled after `n` tokens stays as
/// it is after `m >= n` tokens.
proof fn lemma_walk_prefix(line: Seq<char>, tokens: Seq<(Seq<char>, Seq<char>)>, commands: Seq<Seq<char>>, n: int, m: int)
    requires
        0 <= n <= m <= tokens.len(),
    ensures
        highlight_walk(line, tokens, commands, n).styles.len() <= highlight_walk(line, tokens, commands, m).styles.len(),
        forall|i: int|
            0 <= i < highlight_walk(line, tokens, commands, n).styles.len() ==> #[trigger] highlight_walk(line, tokens, commands, m).styles[i]
                == highlight_walk(line, tokens, commands, n).styles[i],
    decreases m - n,
{
    if n < m {
        lemma_walk_prefix(line, tokens, commands, n, m - 1);
        let a = highlight_walk(line, tokens, commands, m - 1).styles;
        let b = highlight_walk(line, tokens, commands, m).styles;
        assert(a.len() <= b.len() && forall|i: int| 0 <= i < a.len() ==> #[trigger] b[i] == a[i]);
    }
}

/// After a `|`, `&&`, `||` or `;` token, the next word is in command
/// position: it is styled green exactly when it names a known command
/// (a builtin or one of `commands`), and its range is the one the token
/// is found at.
pub proof fn lemma_separator_then_command(
    line: Seq<char>,
    tokens: Seq<(Seq<char>, Seq<char>)>,
    commands: Seq<Seq<char>>,
    n: int,
)
    requires
        1 <= n < tokens.len(),
        tokens[n - 1].1 == "|"@ || tokens[n - 1].1 == "&&"@ || tokens[n - 1].1 == "||"@ || tokens[n - 1].1 == ";"@,
        tokens[n].1.len() > 0,
        !highlight_walk(line, tokens, commands, n + 1).done,
    ensures
        ({
            let st = highlight_walk(line, tokens, commands, n);
            let k = highlight_walk(line, tokens, commands, n + 1).styles.len() - 1;
            let out = highlight_spec(line, tokens, commands);
            &&& 0 <= k < out.len()
            &&& token_range_spec(line, st.cur, tokens[n].0, tokens[n].1) matches Some((a, b))
                && out[k] == (boff(line, a) as int, boff(line, b) as int,
                    if known_command(tokens[n].1, commands) { StyleView::AnsiColor(GREEN@) } else { StyleView::Default })
        }),
{
    let prev = highlight_walk(line, tokens, commands, n - 1);
    let st = highlight_walk(line, tokens, commands, n);
    let nx = highlight_walk(line, tokens, commands, n + 1);
    assert(!st.done);
    assert(!prev.done);
    assert(token_range_spec(line, prev.cur, tokens[n - 1].0, tokens[n - 1].1) is Some);
    assert(ends_segment(tokens[n - 1].1));
    assert(st.segment_start);
    let (a, b) = token_range_spec(line, st.cur, tokens[n].0, tokens[n].1).unwrap();
    lemma_walk_tiles(line, tokens, commands, n);
    lemma_first_non_ws(line, st.cur);
    assert(line.len() > 0);
    lemma_walk_prefix(line, tokens, commands, n + 1, tokens.len() as int);
    let k = nx.styles.len() - 1;
    assert(nx.styles[k] == (boff(line, a) as int, boff(line, b) as int,
        if known_command(tokens[n].1, commands) { StyleView::AnsiColor(GREEN@) } else { StyleView::Default }));
    let fin = highlight_walk(line, tokens, commands, tokens.len() as int);
    assert(fin.styles[k] == nx.styles[k]);
    let out = highlight_spec(line, tokens, commands);
    if fin.cur < line.len() {
        assert(out[k] == fin.styles[k]);
    }
}

/// A word that follows another word (not `|`, `&&`, `||` or `;`) is an
/// argument: it keeps the default style, whatever it names.
pub proof fn lemma_argument_default(
    line: Seq<char>,
    tokens: Seq<(Seq<char>, Seq<char>)>,
    commands: Seq<Seq<char>>,
    n: int,
)
    requires
        1 <= n < tokens.len(),
        tokens[n - 1].1.len() > 0,
        !(tokens[n - 1].1 == "|"@ || tokens[n - 1].1 == "&&"@ || tokens[n - 1].1 == "||"@ || tokens[n - 1].1 == ";"@),
        !highlight_walk(line, tokens, commands, n + 1).done,
    ensures
        ({
            let k = highlight_walk(line, tokens, commands, n + 1).styles.len() - 1;
            let out = highlight_spec(line, tokens, commands);
            0 <= k < out.len() && out[k].2 == StyleView::Default
        }),
{
    let prev = highlight_walk(line, tokens, commands, n - 1);
    let st = highlight_walk(line, tokens, commands, n);
    let nx = highlight_walk(line, tokens, commands, n + 1);
    assert(!st.done);
    assert(!prev.done);
    assert(token_range_spec(line, prev.cur, tokens[n - 1].0, tokens[n - 1].1) is Some);
    assert(!st.segment_start);
    let (a, b) = token_range_spec(line, st.cur, tokens[n].0, tokens[n].1).unwrap();
    lemma_first_non_ws(line, st.cur);
    lemma_walk_prefix(line, tokens, commands, n + 1, tokens.len() as int);
    let k = nx.styles.len() - 1;
    assert(nx.styles[k].2 == StyleView::Default);
    let fin = highlight_walk(line, tokens, commands, tokens.len() as int);
    assert(fin.styles[k] == nx.styles[k]);
    let out = highlight_spec(line, tokens, commands);
    if fin.cur < line.len() {
        assert(out[k] == fin.styles[k]);
    }
}

/// The first word of the line is in command position: it is green
/// exactly when it names a known command.
pub proof fn lemma_first_word_command(line: Seq<char>, tokens: Seq<(Seq<char>, Seq<char>)>, commands: Seq<Seq<char>>)
    requires
        tokens.len() > 0,
        tokens[0].1.len() > 0,
        !highlight_walk(line, tokens, commands, 1).done,
    ensures
        ({
            let k = highlight_walk(line, tokens, commands, 1).styles.len() - 1;
            let out = highlight_spec(line, tokens, commands);
            &&& 0 <= k < out.len()
            &&& out[k].2 == if known_command(tokens[0].1, commands) { StyleView::AnsiColor(GREEN@) } else { StyleView::Default }
        }),
{
    let st = highlight_walk(line, tokens, commands, 0);
    let nx = highlight_walk(line, tokens, commands, 1);
    let (a, b) = token_range_spec(line, st.cur, tokens[0].0, tokens[0].1).unwrap();
    lemma_first_non_ws(line, st.cur);
    lemma_walk_prefix(line, tokens, commands, 1, tokens.len() as int);
    let k = nx.styles.len() - 1;
    let fin = highlight_walk(line, tokens, commands, tokens.len() as int);
    assert(fin.styles[k] == nx.styles[k]);
    let out = highlight_spec(line, tokens, commands);
    if fin.cur < line.len() {
        assert(out[k] == fin.styles[k]);
    }
}

} // verus!
