//! Cursor movement, word and character search over the input line.
//!
//! Positions in the line are byte offsets, as in `str` indexing; the
//! contracts state them through `boff`, the byte offset of a character
//! index.
use std::borrow::Cow;
use std::ops::Range;
use std::ops::RangeFrom;
use std::ops::RangeFull;
use std::ops::RangeTo;

use vstd::prelude::*;

use crate::text::blen;
use crate::text::boff;
use crate::text::byte_to_index;
use crate::text::chars_of;
use crate::text::contains_char;
use crate::text::idx_of;
use crate::text::index_to_byte;
use crate::text::is_boundary;
use crate::text::str_len;
use crate::text::push_char;

verus! {

/// Indicates the start of a series of invisible characters in the prompt
pub const START_INVISIBLE: char = '\x01';

/// Indicates the end of a series of invisible characters in the prompt
pub const END_INVISIBLE: char = '\x02';

// ---------------------------------------------------------------------
// Range arguments
// ---------------------------------------------------------------------

#[verifier::external_type_specification]
#[verifier::external_body]
#[verifier::reject_recursive_types(Idx)]
pub struct ExRangeFrom<Idx>(RangeFrom<Idx>);

#[verifier::external_type_specification]
#[verifier::external_body]
#[verifier::reject_recursive_types(Idx)]
pub struct ExRangeTo<Idx>(RangeTo<Idx>);

#[verifier::external_type_specification]
#[verifier::external_body]
pub struct ExRangeFull(RangeFull);

/// Implemented for built-in range types
pub trait RangeArgument<T> {
    /// Returns the start of range, if present.
    fn start(&self) -> (r: Option<&T>)
        default_ensures
            r is None,
    {
        None
    }

    /// Returns the end of range, if present.
    fn end(&self) -> (r: Option<&T>)
        default_ensures
            r is None,
    {
        None
    }
}

impl<T> RangeArgument<T> for Range<T> {
    fn start(&self) -> (r: Option<&T>)
        ensures
            r == Some(&self.start),
    {
        Some(&self.start)
    }

    fn end(&self) -> (r: Option<&T>)
        ensures
            r == Some(&self.end),
    {
        Some(&self.end)
    }
}

/// Reads the `start` field of a `RangeFrom`; a field read, with nothing to state.
#[verifier::external_body]
fn range_from_start<T>(r: &RangeFrom<T>) -> &T {
    &r.start
}

/// Reads the `end` field of a `RangeTo`; a field read, with nothing to state.
#[verifier::external_body]
fn range_to_end<T>(r: &RangeTo<T>) -> &T {
    &r.end
}

impl<T> RangeArgument<T> for RangeFrom<T> {
    fn start(&self) -> (r: Option<&T>)
        ensures
            r is Some,
    {
        Some(range_from_start(self))
    }

    fn end(&self) -> (r: Option<&T>)
        ensures
            r is None,
    {
        None
    }
}

impl<T> RangeArgument<T> for RangeTo<T> {
    fn start(&self) -> (r: Option<&T>)
        ensures
            r is None,
    {
        None
    }

    fn end(&self) -> (r: Option<&T>)
        ensures
            r is Some,
    {
        Some(range_to_end(self))
    }
}

impl<T> RangeArgument<T> for RangeFull {}

// ---------------------------------------------------------------------
// Invisible characters
// ---------------------------------------------------------------------

/// The characters of `s` outside `START_INVISIBLE` .. `END_INVISIBLE`
/// spans, given whether the text starts inside such a span.
pub open spec fn visible(s: Seq<char>, ignore: bool) -> Seq<char>
    decreases s.len(),
{
    if s.len() == 0 {
        seq![]
    } else if s[0] == START_INVISIBLE {
        visible(s.drop_first(), true)
    } else if s[0] == END_INVISIBLE {
        visible(s.drop_first(), false)
    } else if !ignore {
        seq![s[0]] + visible(s.drop_first(), ignore)
    } else {
        visible(s.drop_first(), ignore)
    }
}

/// Removes the invisible spans of a prompt; a text without
/// `START_INVISIBLE` is returned unchanged.
pub fn filter_visible(s: &str) -> (r: Cow<str>)
    ensures
        r@ == if s@.contains(START_INVISIBLE) {
            visible(s@, false)
        } else {
            s@
        },
        !s@.contains(START_INVISIBLE) ==> (r matches Cow::Borrowed(b) && b == s),
        s@.contains(START_INVISIBLE) ==> r is Owned,
{
    let v = chars_of(s);
    let mut found = false;
    let mut i: usize = 0;
    while i < v.len()
        invariant
            v@ == s@,
            i <= v@.len(),
            found <==> exists|k: int| 0 <= k < i && v@[k] == START_INVISIBLE,
        decreases v@.len() - i,
    {
        if v[i] == START_INVISIBLE {
            found = true;
        }
        i = i + 1;
    }
    if !found {
        proof {
            assert forall|k: int| 0 <= k < s@.len() implies s@[k] != START_INVISIBLE by {}
        }
        return Cow::Borrowed(s);
    }
    proof {
        let k = choose|k: int| 0 <= k < i && v@[k] == START_INVISIBLE;
        assert(s@[k] == START_INVISIBLE);
    }
    let mut virt = String::new();
    let mut ignore = false;
    let mut j: usize = 0;
    proof {
        assert(s@.skip(0) =~= s@);
    }
    while j < v.len()
        invariant
            v@ == s@,
            j <= v@.len(),
            visible(s@, false) == virt@ + visible(s@.skip(j as int), ignore),
        decreases v@.len() - j,
    {
        let ch = v[j];
        proof {
            assert(s@.skip(j as int)[0] == ch);
            assert(s@.skip(j as int).drop_first() =~= s@.skip(j + 1));
        }
        if ch == START_INVISIBLE {
            ignore = true;
        } else if ch == END_INVISIBLE {
            ignore = false;
        } else if !ignore {
            proof {
                assert(virt@.push(ch) + visible(s@.skip(j + 1), ignore) =~= virt@ + (seq![ch]
                    + visible(s@.skip(j + 1), ignore)));
            }
            push_char(&mut virt, ch);
        }
        j = j + 1;
    }
    proof {
        assert(s@.skip(j as int) =~= Seq::<char>::empty());
        assert(virt@ + Seq::<char>::empty() =~= virt@);
    }
    Cow::Owned(virt)
}

// ---------------------------------------------------------------------
// Prefixes and repetition
// ---------------------------------------------------------------------

/// Number of leading characters that `a` and `b` share.
pub open spec fn common_len(a: Seq<char>, b: Seq<char>) -> nat
    decreases a.len(),
{
    if a.len() == 0 || b.len() == 0 || a[0] != b[0] {
        0
    } else {
        1 + common_len(a.drop_first(), b.drop_first())
    }
}

/// Folds the strings `ss[i..]` into the prefix `p`; `None` once two of
/// them share nothing.
pub open spec fn prefix_fold(p: Seq<char>, ss: Seq<Seq<char>>, i: int) -> Option<Seq<char>>
    decreases ss.len() - i,
{
    if i >= ss.len() || i < 0 {
        Some(p)
    } else {
        let n = common_len(p, ss[i]);
        if n == 0 {
            None
        } else {
            prefix_fold(p.take(n as int), ss, i + 1)
        }
    }
}

/// The longest common prefix of `ss`, as `longest_common_prefix` computes
/// it: `None` for no strings or when two of them share no character.
pub open spec fn common_prefix(ss: Seq<Seq<char>>) -> Option<Seq<char>> {
    if ss.len() == 0 {
        None
    } else {
        prefix_fold(ss[0], ss, 1)
    }
}

/// The models of a sequence of strings.
pub open spec fn strs_view(ss: Seq<&str>) -> Seq<Seq<char>> {
    ss.map_values(|s: &str| s@)
}

/// `common_len` counts the shared leading characters.
pub proof fn lemma_common_len(a: Seq<char>, b: Seq<char>)
    ensures
        common_len(a, b) <= a.len(),
        common_len(a, b) <= b.len(),
        forall|k: int| 0 <= k < common_len(a, b) ==> a[k] == b[k],
        common_len(a, b) < a.len() && common_len(a, b) < b.len() ==> a[common_len(a, b) as int]
            != b[common_len(a, b) as int],
    decreases a.len(),
{
    if !(a.len() == 0 || b.len() == 0 || a[0] != b[0]) {
        lemma_common_len(a.drop_first(), b.drop_first());
        assert forall|k: int| 0 <= k < common_len(a, b) implies a[k] == b[k] by {
            if k > 0 {
                assert(a[k] == a.drop_first()[k - 1]);
                assert(b[k] == b.drop_first()[k - 1]);
            }
        }
    }
}

/// `p` is a prefix of `s`.
pub open spec fn is_prefix(p: Seq<char>, s: Seq<char>) -> bool {
    p.len() <= s.len() && s.take(p.len() as int) == p
}

/// `q` is a prefix of each of the first `k` strings of `ss`.
pub open spec fn common_to(q: Seq<char>, ss: Seq<Seq<char>>, k: int) -> bool {
    forall|j: int| 0 <= j < k ==> is_prefix(q, #[trigger] ss[j])
}

/// A prefix of two strings is no longer than what they share.
proof fn lemma_shared_prefix(q: Seq<char>, a: Seq<char>, b: Seq<char>)
    requires
        is_prefix(q, a),
        is_prefix(q, b),
    ensures
        q.len() <= common_len(a, b),
        is_prefix(q, a.take(common_len(a, b) as int)),
{
    lemma_common_len(a, b);
    let n = common_len(a, b) as int;
    if q.len() > n {
        assert(a[n] == a.take(q.len() as int)[n]);
        assert(b[n] == b.take(q.len() as int)[n]);
    }
    assert(a.take(n).take(q.len() as int) =~= q);
}

/// A prefix of a prefix is a prefix.
proof fn lemma_prefix_trans(q: Seq<char>, p: Seq<char>, s: Seq<char>)
    requires
        is_prefix(q, p),
        is_prefix(p, s),
    ensures
        is_prefix(q, s),
{
    assert(s.take(q.len() as int) =~= p.take(q.len() as int));
}

/// Folding keeps a prefix of the strings seen that every common prefix of
/// them extends.
proof fn lemma_prefix_fold(p: Seq<char>, ss: Seq<Seq<char>>, i: int)
    requires
        1 <= i <= ss.len(),
        common_to(p, ss, i),
        forall|q: Seq<char>| common_to(q, ss, i) ==> #[trigger] is_prefix(q, p),
    ensures
        match prefix_fold(p, ss, i) {
            Some(r) => common_to(r, ss, ss.len() as int) && forall|q: Seq<char>|
                common_to(q, ss, ss.len() as int) ==> #[trigger] is_prefix(q, r),
            None => forall|q: Seq<char>| common_to(q, ss, ss.len() as int) ==> #[trigger] q.len() == 0,
        },
    decreases ss.len() - i,
{
    if i < ss.len() {
        let n = common_len(p, ss[i]);
        lemma_common_len(p, ss[i]);
        let p2 = p.take(n as int);
        assert forall|q: Seq<char>| common_to(q, ss, i + 1) implies #[trigger] is_prefix(q, p2) by {
            assert(common_to(q, ss, i)) by {
                assert forall|j: int| 0 <= j < i implies is_prefix(q, #[trigger] ss[j]) by {
                    assert(is_prefix(q, ss[j]));
                }
            }
            assert(is_prefix(q, p));
            assert(is_prefix(q, ss[i]));
            lemma_shared_prefix(q, p, ss[i]);
        }
        if n == 0 {
            assert forall|q: Seq<char>| common_to(q, ss, ss.len() as int) implies #[trigger] q.len() == 0 by {
                assert(common_to(q, ss, i + 1)) by {
                    assert forall|j: int| 0 <= j < i + 1 implies is_prefix(q, #[trigger] ss[j]) by {
                        assert(is_prefix(q, ss[j]));
                    }
                }
                assert(is_prefix(q, p2));
            }
        } else {
            assert(common_to(p2, ss, i + 1)) by {
                assert forall|j: int| 0 <= j < i + 1 implies is_prefix(p2, #[trigger] ss[j]) by {
                    if j < i {
                        assert(is_prefix(p2, p)) by {
                            assert(p.take(n as int) =~= p2);
                        }
                        lemma_prefix_trans(p2, p, ss[j]);
                    } else {
                        assert(ss[i].take(n as int) =~= p2);
                    }
                }
            }
            lemma_prefix_fold(p2, ss, i + 1);
        }
    }
}

/// `longest_common_prefix` finds the longest common prefix: what it
/// returns is a prefix of every string, and every prefix that all strings
/// share is a prefix of it. It returns `None` for no strings, and
/// otherwise only when the strings share no character at their start.
pub proof fn lemma_common_prefix_longest(ss: Seq<Seq<char>>)
    ensures
        match common_prefix(ss) {
            Some(r) => common_to(r, ss, ss.len() as int) && forall|q: Seq<char>|
                common_to(q, ss, ss.len() as int) ==> #[trigger] is_prefix(q, r),
            None => ss.len() == 0 || forall|q: Seq<char>| common_to(q, ss, ss.len() as int) ==> #[trigger] q.len() == 0,
        },
{
    if ss.len() > 0 {
        assert(common_to(ss[0], ss, 1)) by {
            assert(ss[0].take(ss[0].len() as int) =~= ss[0]);
        }
        assert forall|q: Seq<char>| common_to(q, ss, 1) implies #[trigger] is_prefix(q, ss[0]) by {
            assert(is_prefix(q, ss[0]));
        }
        lemma_prefix_fold(ss[0], ss, 1);
    }
}

/// A name matches itself.
pub proof fn lemma_name_matches_itself(name: Seq<char>)
    ensures
        name_matches(name, name),
{
}

/// A name that matches a value starts with it.
pub proof fn lemma_name_matches_prefix(name: Seq<char>, value: Seq<char>)
    requires
        name_matches(name, value),
    ensures
        is_prefix(value, name),
{
    assert(name.take(name.len() as int) =~= name);
}

/// Number of leading characters `a` and `b` share.
fn common_count(a: &Vec<char>, b: &Vec<char>) -> (n: usize)
    ensures
        n == common_len(a@, b@),
{
    let mut n: usize = 0;
    proof {
        assert(a@.skip(0) =~= a@);
        assert(b@.skip(0) =~= b@);
    }
    while n < a.len() && n < b.len() && a[n] == b[n]
        invariant
            n <= a@.len(),
            n <= b@.len(),
            common_len(a@, b@) == n + common_len(a@.skip(n as int), b@.skip(n as int)),
        decreases a@.len() - n,
    {
        proof {
            assert(a@.skip(n as int).drop_first() =~= a@.skip(n + 1));
            assert(b@.skip(n as int).drop_first() =~= b@.skip(n + 1));
        }
        n = n + 1;
    }
    proof {
        assert(a@.skip(0) =~= a@);
        assert(b@.skip(0) =~= b@);
        if n < a.len() && n < b.len() {
            assert(a@.skip(n as int)[0] == a@[n as int]);
            assert(b@.skip(n as int)[0] == b@[n as int]);
        }
    }
    n
}

/// Returns the longest common prefix of a set of strings.
///
/// If no common prefix exists, `None` is returned.
pub fn longest_common_prefix<'a>(strs: &[&'a str]) -> (r: Option<&'a str>)
    ensures
        match common_prefix(strs_view(strs@)) {
            Some(p) => r matches Some(x) && x@ == p,
            None => r is None,
        },
{
    let ghost ss = strs_view(strs@);
    if strs.len() == 0 {
        return None;
    }
    let first = strs[0];
    let fv = chars_of(first);
    let mut k = fv.len();
    let mut i: usize = 1;
    proof {
        assert(fv@.take(k as int) =~= ss[0]);
    }
    while i < strs.len()
        invariant
            ss == strs_view(strs@),
            fv@ == strs@[0]@,
            1 <= i <= strs@.len(),
            k <= fv@.len(),
            common_prefix(ss) == prefix_fold(fv@.take(k as int), ss, i as int),
        decreases strs@.len() - i,
    {
        let sv = chars_of(strs[i]);
        let pv = crate::text::copy_range(&fv, 0, k);
        proof {
            assert(pv@ =~= fv@.take(k as int));
        }
        let n = common_count(&pv, &sv);
        proof {
            lemma_common_len(pv@, sv@);
        }
        if n == 0 {
            return None;
        }
        proof {
            assert(fv@.take(k as int).take(n as int) =~= fv@.take(n as int));
        }
        k = n;
        i = i + 1;
    }
    let r = first.substring_char(0, k);
    Some(r)
}

/// Returns a string consisting of a `char`, repeated `n` times.
pub fn repeat_char(ch: char, n: usize) -> (s: String)
    ensures
        s@ == Seq::new(n as nat, |_i: int| ch),
{
    let mut s = String::new();
    let mut i: usize = 0;
    while i < n
        invariant
            i <= n,
            s@ == Seq::new(i as nat, |_i: int| ch),
        decreases n - i,
    {
        push_char(&mut s, ch);
        i = i + 1;
        proof {
            assert(s@ =~= Seq::new(i as nat, |_i: int| ch));
        }
    }
    s
}

/// Whether `name` is `value` or starts with `value` followed by `-`;
/// a value of `"foo"` matches both `"foo"` and `"foo-bar"`.
pub open spec fn name_matches(name: Seq<char>, value: Seq<char>) -> bool {
    name == value || (value.len() < name.len() && name.take(value.len() as int) == value
        && name[value.len() as int] == '-')
}

/// Returns whether `name` matches `value`: it is `value`, or starts with
/// `value` and a `-`.
pub fn match_name(name: &str, value: &str) -> (b: bool)
    ensures
        b == name_matches(name@, value@),
{
    let nv = chars_of(name);
    let vv = chars_of(value);
    if nv.len() == vv.len() {
        let c = common_count(&nv, &vv);
        proof {
            lemma_common_len(nv@, vv@);
            if c == nv.len() {
                assert(nv@ =~= vv@);
            }
        }
        return c == nv.len();
    }
    if vv.len() > nv.len() {
        return false;
    }
    let c = common_count(&nv, &vv);
    proof {
        lemma_common_len(nv@, vv@);
        if c == vv.len() {
            assert(nv@.take(vv@.len() as int) =~= vv@);
        } else {
            assert(nv@.take(vv@.len() as int)[c as int] != vv@[c as int]);
        }
    }
    c == vv.len() && nv[vv.len()] == '-'
}

/// Removes the leading items of `items` for which `f` holds: after the call
/// `items` starts at the first item for which `f` does not hold, or is
/// empty when `f` holds of all.
pub fn drop_while<T, F: Fn(&T) -> bool>(items: &mut Vec<T>, f: F)
    requires
        forall|i: int| 0 <= i < old(items)@.len() ==> f.requires((&old(items)@[i],)),
    ensures
        exists|n: int|
            0 <= n <= old(items)@.len() && final(items)@ == old(items)@.skip(n) && (forall|i: int|
                0 <= i < n ==> f.ensures((&old(items)@[i],), true)) && (n < old(items)@.len() ==> f.ensures(
                (&old(items)@[n],),
                false,
            )),
{
    let ghost orig = items@;
    let len = items.len();
    let mut n: usize = 0;
    proof {
        assert(items@ =~= orig.skip(0));
        assert(orig.len() == len);
    }
    while items.len() > 0
        invariant
            n <= orig.len(),
            orig.len() <= usize::MAX,
            items@ == orig.skip(n as int),
            forall|i: int| 0 <= i < orig.len() ==> f.requires((&orig[i],)),
            forall|i: int| 0 <= i < n ==> f.ensures((&orig[i],), true),
        ensures
            n <= orig.len(),
            items@ == orig.skip(n as int),
            forall|i: int| 0 <= i < n ==> f.ensures((&orig[i],), true),
            n < orig.len() ==> f.ensures((&orig[n as int],), false),
        decreases items@.len(),
    {
        assert(items@[0] == orig[n as int]);
        let keep = f(&items[0]);
        if !keep {
            break;
        }
        items.remove(0);
        proof {
            assert(items@ =~= orig.skip(n + 1));
        }
        n = n + 1;
    }
}

/// The opening parenthesis matching a closing one.
pub fn get_open_paren(ch: char) -> (r: Option<char>)
    ensures
        r == if ch == ')' {
            Some('(')
        } else if ch == ']' {
            Some('[')
        } else if ch == '}' {
            Some('{')
        } else {
            None::<char>
        },
{
    if ch == ')' {
        Some('(')
    } else if ch == ']' {
        Some('[')
    } else if ch == '}' {
        Some('{')
    } else {
        None
    }
}

// ---------------------------------------------------------------------
// Character movement
// ---------------------------------------------------------------------

/// Whether `mortal::util::is_combining_mark` holds of `c`.
pub uninterp spec fn combining_mark(c: char) -> bool;

/// Returns whether the given character is a combining mark.
///
/// Calls `mortal::util::is_combining_mark`; the contract names its result.
#[verifier::external_body]
pub fn is_combining_mark(ch: char) -> (b: bool)
    ensures
        b == combining_mark(ch),
{
    mortal::util::is_combining_mark(ch)
}

/// The terminal width that `mortal::util::char_width` gives `c`.
pub uninterp spec fn char_width_of(c: char) -> Option<usize>;

/// Calls `mortal::util::char_width`, which asks `unicode-width` how many
/// columns `ch` takes; the contract names its result and says nothing more.
#[verifier::external_body]
fn char_width(ch: char) -> (w: Option<usize>)
    ensures
        w == char_width_of(ch),
{
    mortal::util::char_width(ch)
}

/// Returns whether `ch` takes two columns on a terminal.
pub fn is_wide(ch: char) -> (b: bool)
    ensures
        b == (char_width_of(ch) == Some(2usize)),
{
    match char_width(ch) {
        Some(w) => w == 2,
        None => false,
    }
}

/// Which characters of `s` are combining marks.
pub open spec fn marks_of(s: Seq<char>) -> Seq<bool> {
    s.map_values(|c: char| combining_mark(c))
}

/// Index of the last non-mark before position `p`.
pub open spec fn prev_base(m: Seq<bool>, p: int) -> Option<int>
    decreases p,
{
    if p <= 0 || p > m.len() {
        None
    } else if !m[p - 1] {
        Some(p - 1)
    } else {
        prev_base(m, p - 1)
    }
}

/// Index of the first non-mark at or after position `p`.
pub open spec fn next_base(m: Seq<bool>, p: int) -> Option<int>
    decreases m.len() - p,
{
    if p < 0 || p >= m.len() {
        None
    } else if !m[p] {
        Some(p)
    } else {
        next_base(m, p + 1)
    }
}

/// Position reached moving back `n` characters from `p`, skipping marks;
/// `0` when fewer than `n` remain.
pub open spec fn back_chars(m: Seq<bool>, p: int, n: nat) -> int
    decreases n,
{
    if n == 0 {
        p
    } else {
        match prev_base(m, p) {
            None => 0,
            Some(j) => back_chars(m, j, (n - 1) as nat),
        }
    }
}

/// Position reached moving forward `n` characters from `p`, skipping marks;
/// the end when fewer remain.
pub open spec fn fwd_chars(m: Seq<bool>, p: int, n: nat) -> int
    decreases n,
{
    if n == 0 {
        match next_base(m, p) {
            Some(j) => j,
            None => m.len() as int,
        }
    } else {
        match next_base(m, p) {
            None => m.len() as int,
            Some(j) => fwd_chars(m, j + 1, (n - 1) as nat),
        }
    }
}

/// `prev_base` lands before `p`.
proof fn lemma_prev_base(m: Seq<bool>, p: int)
    ensures
        prev_base(m, p) matches Some(j) ==> 0 <= j < p && j < m.len() && !m[j],
    decreases p,
{
    if 0 < p <= m.len() && m[p - 1] {
        lemma_prev_base(m, p - 1);
    }
}

/// `next_base` lands at or after `p`.
proof fn lemma_next_base(m: Seq<bool>, p: int)
    ensures
        next_base(m, p) matches Some(j) ==> p <= j < m.len() && 0 <= j && !m[j],
    decreases m.len() - p,
{
    if 0 <= p < m.len() && m[p] {
        lemma_next_base(m, p + 1);
    }
}

/// The index of the last non-mark before `p`.
fn prev_base_exec(m: &[bool], p: usize) -> (r: Option<usize>)
    requires
        p <= m@.len(),
    ensures
        match prev_base(m@, p as int) {
            Some(j) => r == Some(j as usize),
            None => r is None,
        },
{
    let mut q = p;
    while q > 0 && m[q - 1]
        invariant
            q <= p <= m@.len(),
            prev_base(m@, p as int) == prev_base(m@, q as int),
        decreases q,
    {
        q = q - 1;
    }
    if q == 0 {
        None
    } else {
        Some(q - 1)
    }
}

/// The index of the first non-mark at or after `p`.
fn next_base_exec(m: &[bool], p: usize) -> (r: Option<usize>)
    requires
        p <= m@.len(),
    ensures
        match next_base(m@, p as int) {
            Some(j) => r == Some(j as usize),
            None => r is None,
        },
{
    let mut q = p;
    while q < m.len() && m[q]
        invariant
            p <= q <= m@.len(),
            next_base(m@, p as int) == next_base(m@, q as int),
        decreases m@.len() - q,
    {
        q = q + 1;
    }
    if q == m.len() {
        None
    } else {
        Some(q)
    }
}

/// Moves back `n` characters from byte offset `cur`, with the combining
/// marks of `s` given by `marks`.
pub fn backward_char_marks(n: usize, s: &str, cur: usize, marks: &[bool]) -> (r: usize)
    requires
        is_boundary(s@, cur as int),
        marks@.len() == s@.len(),
    ensures
        r == boff(s@, back_chars(marks@, idx_of(s@, cur as int), n as nat)),
{
    let _ = str_len(s);
    let v = chars_of(s);
    let k = byte_to_index(&v, cur);
    let mut p = k;
    let mut i: usize = 0;
    while i < n
        invariant
            v@ == s@,
            marks@.len() == s@.len(),
            blen(s@) <= usize::MAX,
            k <= s@.len(),
            k == idx_of(s@, cur as int),
            i <= n,
            p <= s@.len(),
            back_chars(marks@, k as int, n as nat) == back_chars(marks@, p as int, (n - i) as nat),
        decreases n - i,
    {
        proof {
            lemma_prev_base(marks@, p as int);
        }
        match prev_base_exec(marks, p) {
            Some(j) => {
                p = j;
            },
            None => {
                proof {
                    assert(v@.take(0) =~= Seq::<char>::empty());
                }
                return index_to_byte(&v, 0);
            },
        }
        i = i + 1;
    }
    index_to_byte(&v, p)
}

/// The combining marks among the characters of `v`.
fn marks_exec(v: &Vec<char>) -> (m: Vec<bool>)
    ensures
        m@ == marks_of(v@),
{
    let mut m: Vec<bool> = Vec::new();
    let mut i: usize = 0;
    while i < v.len()
        invariant
            i <= v@.len(),
            m@ == marks_of(v@.take(i as int)),
        decreases v@.len() - i,
    {
        m.push(is_combining_mark(v[i]));
        i = i + 1;
        proof {
            assert(m@ =~= marks_of(v@.take(i as int)));
        }
    }
    proof {
        assert(v@.take(i as int) =~= v@);
    }
    m
}

/// Moves back `n` characters from byte offset `cur`, skipping combining
/// marks; returns `0` when fewer than `n` characters precede `cur`.
pub fn backward_char(n: usize, s: &str, cur: usize) -> (r: usize)
    requires
        is_boundary(s@, cur as int),
    ensures
        r == boff(s@, back_chars(marks_of(s@), idx_of(s@, cur as int), n as nat)),
{
    let _ = str_len(s);
    let v = chars_of(s);
    let m = marks_exec(&v);
    backward_char_marks(n, s, cur, m.as_slice())
}

/// Moves forward `n` characters from byte offset `cur`, with the combining
/// marks of `s` given by `marks`.
pub fn forward_char_marks(n: usize, s: &str, cur: usize, marks: &[bool]) -> (r: usize)
    requires
        is_boundary(s@, cur as int),
        marks@.len() == s@.len(),
    ensures
        r == boff(s@, fwd_chars(marks@, idx_of(s@, cur as int), n as nat)),
{
    let _ = str_len(s);
    let v = chars_of(s);
    let k = byte_to_index(&v, cur);
    let mut p = k;
    let mut i: usize = 0;
    while i < n
        invariant
            v@ == s@,
            marks@.len() == s@.len(),
            blen(s@) <= usize::MAX,
            k <= s@.len(),
            k == idx_of(s@, cur as int),
            i <= n,
            p <= s@.len(),
            fwd_chars(marks@, k as int, n as nat) == fwd_chars(marks@, p as int, (n - i) as nat),
        decreases n - i,
    {
        proof {
            lemma_next_base(marks@, p as int);
        }
        match next_base_exec(marks, p) {
            Some(j) => {
                assert(j < marks.len());
                p = j + 1;
            },
            None => {
                return index_to_byte(&v, v.len());
            },
        }
        i = i + 1;
    }
    proof {
        lemma_next_base(marks@, p as int);
    }
    match next_base_exec(marks, p) {
        Some(j) => index_to_byte(&v, j),
        None => index_to_byte(&v, v.len()),
    }
}

/// Moves forward `n` characters from byte offset `cur`, skipping combining
/// marks; returns the end of the line when fewer remain.
pub fn forward_char(n: usize, s: &str, cur: usize) -> (r: usize)
    requires
        is_boundary(s@, cur as int),
    ensures
        r == boff(s@, fwd_chars(marks_of(s@), idx_of(s@, cur as int), n as nat)),
{
    let _ = str_len(s);
    let v = chars_of(s);
    let m = marks_exec(&v);
    forward_char_marks(n, s, cur, m.as_slice())
}

// ---------------------------------------------------------------------
// Character search
// ---------------------------------------------------------------------

/// Index of the last `c` before position `p` of `s`.
pub open spec fn rfind_before(s: Seq<char>, p: int, c: char) -> Option<int>
    decreases p,
{
    if p <= 0 || p > s.len() {
        None
    } else if s[p - 1] == c {
        Some(p - 1)
    } else {
        rfind_before(s, p - 1, c)
    }
}

/// Index of the first `c` at or after position `p` of `s`.
pub open spec fn find_from(s: Seq<char>, p: int, c: char) -> Option<int>
    decreases s.len() - p,
{
    if p < 0 || p >= s.len() {
        None
    } else if s[p] == c {
        Some(p)
    } else {
        find_from(s, p + 1, c)
    }
}

/// The `n`th occurrence of `c` going back from `p`, or the last one found
/// when there are fewer; `None` when there is none (or `n` is 0).
pub open spec fn search_back(s: Seq<char>, p: int, n: nat, c: char) -> Option<int>
    decreases n,
{
    if n == 0 {
        None
    } else {
        match rfind_before(s, p, c) {
            None => None,
            Some(j) => match search_back(s, j, (n - 1) as nat, c) {
                Some(x) => Some(x),
                None => Some(j),
            },
        }
    }
}

/// The `n`th occurrence of `c` after the character at `p`, or the last one
/// found when there are fewer; `None` when there is none (or `n` is 0).
pub open spec fn search_fwd(s: Seq<char>, p: int, n: nat, c: char) -> Option<int>
    decreases n,
{
    if n == 0 || p < 0 || p >= s.len() {
        None
    } else {
        match find_from(s, p + 1, c) {
            None => None,
            Some(j) => match search_fwd(s, j, (n - 1) as nat, c) {
                Some(x) => Some(x),
                None => Some(j),
            },
        }
    }
}

/// `rfind_before` lands before `p`.
proof fn lemma_rfind_before(s: Seq<char>, p: int, c: char)
    ensures
        rfind_before(s, p, c) matches Some(j) ==> 0 <= j < p && j < s.len(),
    decreases p,
{
    if 0 < p <= s.len() && s[p - 1] != c {
        lemma_rfind_before(s, p - 1, c);
    }
}

/// `find_from` lands at or after `p`.
proof fn lemma_find_from(s: Seq<char>, p: int, c: char)
    ensures
        find_from(s, p, c) matches Some(j) ==> 0 <= p <= j < s.len(),
    decreases s.len() - p,
{
    if 0 <= p < s.len() && s[p] != c {
        lemma_find_from(s, p + 1, c);
    }
}

/// Moves back `n` occurrences of `ch` from byte offset `cur`; returns the
/// byte offset of the last occurrence reached, if any.
pub fn backward_search_char(n: usize, buf: &str, cur: usize, ch: char) -> (r: Option<usize>)
    requires
        is_boundary(buf@, cur as int),
    ensures
        match search_back(buf@, idx_of(buf@, cur as int), n as nat, ch) {
            Some(j) => r == Some(boff(buf@, j) as usize),
            None => r is None,
        },
{
    let _ = str_len(buf);
    let v = chars_of(buf);
    let k = byte_to_index(&v, cur);
    let mut p = k;
    let mut pos: Option<usize> = None;
    let mut i: usize = 0;
    while i < n
        invariant
            v@ == buf@,
            blen(buf@) <= usize::MAX,
            i <= n,
            p <= v@.len(),
            k == idx_of(buf@, cur as int),
            pos is None <==> i == 0,
            pos matches Some(q) ==> q == p,
            search_back(v@, k as int, n as nat, ch) == match search_back(
                v@,
                p as int,
                (n - i) as nat,
                ch,
            ) {
                Some(x) => Some(x),
                None => match pos {
                    Some(q) => Some(q as int),
                    None => None,
                },
            },
        ensures
            v@ == buf@,
            blen(buf@) <= usize::MAX,
            p <= v@.len(),
            k == idx_of(buf@, cur as int),
            pos matches Some(q) ==> q <= v@.len(),
            search_back(v@, k as int, n as nat, ch) == match pos {
                Some(q) => Some(q as int),
                None => None,
            },
        decreases n - i,
    {
        proof {
            lemma_rfind_before(v@, p as int, ch);
        }
        let mut q = p;
        while q > 0 && v[q - 1] != ch
            invariant
                q <= p <= v@.len(),
                rfind_before(v@, p as int, ch) == rfind_before(v@, q as int, ch),
            decreases q,
        {
            q = q - 1;
        }
        if q == 0 {
            break ;
        }
        p = q - 1;
        pos = Some(p);
        i = i + 1;
    }
    match pos {
        Some(q) => Some(index_to_byte(&v, q)),
        None => None,
    }
}

/// Moves forward `n` occurrences of `ch` after the character at byte
/// offset `cur`; returns the byte offset of the last occurrence reached,
/// if any.
pub fn forward_search_char(n: usize, buf: &str, cur: usize, ch: char) -> (r: Option<usize>)
    requires
        is_boundary(buf@, cur as int),
    ensures
        match search_fwd(buf@, idx_of(buf@, cur as int), n as nat, ch) {
            Some(j) => r == Some(boff(buf@, j) as usize),
            None => r is None,
        },
{
    let _ = str_len(buf);
    let v = chars_of(buf);
    let k = byte_to_index(&v, cur);
    let mut p = k;
    let mut pos: Option<usize> = None;
    let mut i: usize = 0;
    while i < n
        invariant
            v@ == buf@,
            blen(buf@) <= usize::MAX,
            i <= n,
            p <= v@.len(),
            k == idx_of(buf@, cur as int),
            pos is None <==> i == 0,
            pos matches Some(q) ==> q == p,
            search_fwd(v@, k as int, n as nat, ch) == match search_fwd(
                v@,
                p as int,
                (n - i) as nat,
                ch,
            ) {
                Some(x) => Some(x),
                None => match pos {
                    Some(q) => Some(q as int),
                    None => None,
                },
            },
        ensures
            v@ == buf@,
            blen(buf@) <= usize::MAX,
            p <= v@.len(),
            k == idx_of(buf@, cur as int),
            pos matches Some(q) ==> q <= v@.len(),
            search_fwd(v@, k as int, n as nat, ch) == match pos {
                Some(q) => Some(q as int),
                None => None,
            },
        decreases n - i,
    {
        if p >= v.len() {
            break ;
        }
        proof {
            lemma_find_from(v@, p + 1, ch);
        }
        let mut q = p + 1;
        while q < v.len() && v[q] != ch
            invariant
                p + 1 <= q <= v@.len(),
                find_from(v@, p + 1, ch) == find_from(v@, q as int, ch),
            decreases v@.len() - q,
        {
            q = q + 1;
        }
        if q == v.len() {
            break ;
        }
        p = q;
        pos = Some(p);
        i = i + 1;
    }
    match pos {
        Some(q) => Some(index_to_byte(&v, q)),
        None => None,
    }
}

// ---------------------------------------------------------------------
// Words
// ---------------------------------------------------------------------

/// Going back from `p`, the first position before which the characters
/// are not (`want == false`) or are (`want == true`) word breaks.
pub open spec fn skip_back(s: Seq<char>, p: int, wb: Seq<char>, want: bool) -> int
    decreases p,
{
    if 0 < p <= s.len() && wb.contains(s[p - 1]) == want {
        skip_back(s, p - 1, wb, want)
    } else {
        p
    }
}

/// Going forward from `p`, the first position whose character is not
/// (`want == true`) or is (`want == false`) a word break, or the end.
pub open spec fn skip_fwd(s: Seq<char>, p: int, wb: Seq<char>, want: bool) -> int
    decreases s.len() - p,
{
    if 0 <= p < s.len() && wb.contains(s[p]) == want {
        skip_fwd(s, p + 1, wb, want)
    } else {
        p
    }
}

/// Position `n` words back from `p` (the start of that word), or `0`.
pub open spec fn words_back(s: Seq<char>, p: int, n: nat, wb: Seq<char>) -> int
    decreases n,
{
    if n == 0 {
        p
    } else {
        let p1 = skip_back(s, p, wb, true);
        if p1 <= 0 {
            0
        } else {
            let p2 = skip_back(s, p1, wb, false);
            if p2 <= 0 {
                0
            } else {
                words_back(s, p2, (n - 1) as nat, wb)
            }
        }
    }
}

/// Position `n` words forward from `p` (past the end of that word), or the
/// end of the line. With `breaks_first`, word breaks are skipped before the
/// word (`forward_word`); otherwise the rest of the current word is
/// skipped first, then the breaks (`next_word`).
pub open spec fn words_fwd(s: Seq<char>, p: int, n: nat, wb: Seq<char>, breaks_first: bool) -> int
    decreases n,
{
    if n == 0 {
        p
    } else {
        let p1 = skip_fwd(s, p, wb, breaks_first);
        if p1 >= s.len() {
            s.len() as int
        } else {
            let p2 = skip_fwd(s, p1, wb, !breaks_first);
            if p2 >= s.len() {
                s.len() as int
            } else {
                words_fwd(s, p2, (n - 1) as nat, wb, breaks_first)
            }
        }
    }
}

/// `skip_back` moves back within bounds.
proof fn lemma_skip_back(s: Seq<char>, p: int, wb: Seq<char>, want: bool)
    requires
        0 <= p <= s.len(),
    ensures
        0 <= skip_back(s, p, wb, want) <= p,
        forall|i: int| skip_back(s, p, wb, want) <= i < p ==> wb.contains(#[trigger] s[i]) == want,
        skip_back(s, p, wb, want) > 0 ==> wb.contains(s[skip_back(s, p, wb, want) - 1]) != want,
    decreases p,
{
    if 0 < p <= s.len() && wb.contains(s[p - 1]) == want {
        lemma_skip_back(s, p - 1, wb, want);
    }
}

/// `skip_fwd` moves forward within bounds.
proof fn lemma_skip_fwd(s: Seq<char>, p: int, wb: Seq<char>, want: bool)
    requires
        0 <= p <= s.len(),
    ensures
        p <= skip_fwd(s, p, wb, want) <= s.len(),
    decreases s.len() - p,
{
    if 0 <= p < s.len() && wb.contains(s[p]) == want {
        lemma_skip_fwd(s, p + 1, wb, want);
    }
}

/// Exec counterpart of `skip_back`.
fn skip_back_exec(v: &Vec<char>, p: usize, wb: &Vec<char>, want: bool) -> (q: usize)
    requires
        p <= v@.len(),
    ensures
        q == skip_back(v@, p as int, wb@, want),
        q <= p,
{
    let mut q = p;
    while q > 0 && contains_char(wb, v[q - 1]) == want
        invariant
            q <= p <= v@.len(),
            skip_back(v@, p as int, wb@, want) == skip_back(v@, q as int, wb@, want),
        decreases q,
    {
        q = q - 1;
    }
    q
}

/// Exec counterpart of `skip_fwd`.
fn skip_fwd_exec(v: &Vec<char>, p: usize, wb: &Vec<char>, want: bool) -> (q: usize)
    requires
        p <= v@.len(),
    ensures
        q == skip_fwd(v@, p as int, wb@, want),
        p <= q <= v@.len(),
{
    let mut q = p;
    while q < v.len() && contains_char(wb, v[q]) == want
        invariant
            p <= q <= v@.len(),
            skip_fwd(v@, p as int, wb@, want) == skip_fwd(v@, q as int, wb@, want),
        decreases v@.len() - q,
    {
        q = q + 1;
    }
    q
}

/// Exec counterpart of `words_back`.
fn words_back_exec(v: &Vec<char>, p: usize, n: usize, wb: &Vec<char>) -> (q: usize)
    requires
        p <= v@.len(),
    ensures
        q == words_back(v@, p as int, n as nat, wb@),
        q <= v@.len(),
{
    let mut q = p;
    let mut i: usize = 0;
    while i < n
        invariant
            i <= n,
            q <= v@.len(),
            words_back(v@, p as int, n as nat, wb@) == words_back(
                v@,
                q as int,
                (n - i) as nat,
                wb@,
            ),
        decreases n - i,
    {
        let p1 = skip_back_exec(v, q, wb, true);
        if p1 == 0 {
            return 0;
        }
        let p2 = skip_back_exec(v, p1, wb, false);
        if p2 == 0 {
            return 0;
        }
        q = p2;
        i = i + 1;
    }
    q
}

/// Exec counterpart of `words_fwd`.
fn words_fwd_exec(v: &Vec<char>, p: usize, n: usize, wb: &Vec<char>, breaks_first: bool) -> (q:
    usize)
    requires
        p <= v@.len(),
    ensures
        q == words_fwd(v@, p as int, n as nat, wb@, breaks_first),
        q <= v@.len(),
{
    let mut q = p;
    let mut i: usize = 0;
    while i < n
        invariant
            i <= n,
            q <= v@.len(),
            words_fwd(v@, p as int, n as nat, wb@, breaks_first) == words_fwd(
                v@,
                q as int,
                (n - i) as nat,
                wb@,
                breaks_first,
            ),
        decreases n - i,
    {
        let p1 = skip_fwd_exec(v, q, wb, breaks_first);
        if p1 == v.len() {
            return v.len();
        }
        let p2 = skip_fwd_exec(v, p1, wb, !breaks_first);
        if p2 == v.len() {
            return v.len();
        }
        q = p2;
        i = i + 1;
    }
    q
}

/// Moves back `n` words from byte offset `cur`; the result is the start of
/// the word reached, or `0`.
pub fn backward_word(n: usize, buf: &str, cur: usize, word_break: &str) -> (r: usize)
    requires
        is_boundary(buf@, cur as int),
    ensures
        r == boff(buf@, words_back(buf@, idx_of(buf@, cur as int), n as nat, word_break@)),
{
    let _ = str_len(buf);
    let v = chars_of(buf);
    let wb = chars_of(word_break);
    let k = byte_to_index(&v, cur);
    let q = words_back_exec(&v, k, n, &wb);
    index_to_byte(&v, q)
}

/// Moves forward `n` words from byte offset `cur`; the result is the end
/// of the word reached, or the end of the line.
pub fn forward_word(n: usize, buf: &str, cur: usize, word_break: &str) -> (r: usize)
    requires
        is_boundary(buf@, cur as int),
    ensures
        r == boff(buf@, words_fwd(buf@, idx_of(buf@, cur as int), n as nat, word_break@, true)),
{
    let _ = str_len(buf);
    let v = chars_of(buf);
    let wb = chars_of(word_break);
    let k = byte_to_index(&v, cur);
    let q = words_fwd_exec(&v, k, n, &wb, true);
    index_to_byte(&v, q)
}

/// Moves to the start of the `n`th following word from byte offset `cur`,
/// or the end of the line.
pub fn next_word(n: usize, buf: &str, cur: usize, word_break: &str) -> (r: usize)
    requires
        is_boundary(buf@, cur as int),
    ensures
        r == boff(buf@, words_fwd(buf@, idx_of(buf@, cur as int), n as nat, word_break@, false)),
{
    let _ = str_len(buf);
    let v = chars_of(buf);
    let wb = chars_of(word_break);
    let k = byte_to_index(&v, cur);
    let q = words_fwd_exec(&v, k, n, &wb, false);
    index_to_byte(&v, q)
}

/// The end of the word at byte offset `cur`: the next word break, or the
/// end of the line.
pub fn word_end(buf: &str, cur: usize, word_break: &str) -> (r: usize)
    requires
        is_boundary(buf@, cur as int),
    ensures
        r == boff(buf@, skip_fwd(buf@, idx_of(buf@, cur as int), word_break@, false)),
{
    let _ = str_len(buf);
    let v = chars_of(buf);
    let wb = chars_of(word_break);
    let k = byte_to_index(&v, cur);
    let q = skip_fwd_exec(&v, k, &wb, false);
    index_to_byte(&v, q)
}

/// The byte offset of the first character that is not a word break, if any.
pub fn first_word(buf: &str, word_break: &str) -> (r: Option<usize>)
    ensures
        ({
            let q = skip_fwd(buf@, 0, word_break@, true);
            if q < buf@.len() {
                r == Some(boff(buf@, q) as usize)
            } else {
                r is None
            }
        }),
{
    let _ = str_len(buf);
    let v = chars_of(buf);
    let wb = chars_of(word_break);
    let q = skip_fwd_exec(&v, 0, &wb, true);
    if q < v.len() {
        Some(index_to_byte(&v, q))
    } else {
        None
    }
}

/// The start of the word at character position `k`: the end of the line,
/// the next word when `k` is on a word break, or the start of the current
/// word.
pub open spec fn word_start_of(s: Seq<char>, k: int, wb: Seq<char>) -> int {
    if k >= s.len() {
        s.len() as int
    } else if wb.contains(s[k]) {
        words_fwd(s, k, 1, wb, false)
    } else {
        skip_back(s, k, wb, false)
    }
}

/// Returns the start of the word at byte offset `cur`.
pub fn word_start(buf: &str, cur: usize, word_break: &str) -> (r: usize)
    requires
        is_boundary(buf@, cur as int),
    ensures
        r == boff(buf@, word_start_of(buf@, idx_of(buf@, cur as int), word_break@)),
{
    let _ = str_len(buf);
    let v = chars_of(buf);
    let wb = chars_of(word_break);
    let k = byte_to_index(&v, cur);
    if k >= v.len() {
        return index_to_byte(&v, v.len());
    }
    if contains_char(&wb, v[k]) {
        let q = words_fwd_exec(&v, k, 1, &wb, false);
        index_to_byte(&v, q)
    } else {
        let q = skip_back_exec(&v, k, &wb, false);
        index_to_byte(&v, q)
    }
}

/// The character range of `n` words back from `k`, as `back_n_words`
/// computes it.
pub open spec fn back_words_range(s: Seq<char>, k: int, n: nat, wb: Seq<char>) -> (int, int) {
    let prev = words_back(s, k, 1, wb);
    let end = skip_fwd(s, prev, wb, false);
    let start = if n > 1 {
        words_back(s, prev, (n - 1) as nat, wb)
    } else {
        prev
    };
    (start, end)
}

/// The character range of `n` words forward from `k`, as
/// `forward_n_words` computes it.
pub open spec fn fwd_words_range(s: Seq<char>, k: int, n: nat, wb: Seq<char>) -> (int, int) {
    let start = words_fwd(s, k, 1, wb, false);
    let end = if n > 1 {
        skip_fwd(s, words_fwd(s, start, (n - 1) as nat, wb, false), wb, false)
    } else {
        skip_fwd(s, start, wb, false)
    };
    (start, end)
}

/// The byte range of the `n` words before byte offset `cur`.
pub fn back_n_words(n: usize, buf: &str, cur: usize, word_break: &str) -> (r: Range<usize>)
    requires
        is_boundary(buf@, cur as int),
    ensures
        r.start == boff(buf@, back_words_range(buf@, idx_of(buf@, cur as int), n as nat, word_break@).0),
        r.end == boff(buf@, back_words_range(buf@, idx_of(buf@, cur as int), n as nat, word_break@).1),
{
    let _ = str_len(buf);
    let v = chars_of(buf);
    let wb = chars_of(word_break);
    let k = byte_to_index(&v, cur);
    let prev = words_back_exec(&v, k, 1, &wb);
    let end = skip_fwd_exec(&v, prev, &wb, false);
    let start = if n > 1 {
        words_back_exec(&v, prev, n - 1, &wb)
    } else {
        prev
    };
    let s = index_to_byte(&v, start);
    let e = index_to_byte(&v, end);
    s..e
}

/// The byte range of the `n` words after byte offset `cur`.
pub fn forward_n_words(n: usize, buf: &str, cur: usize, word_break: &str) -> (r: Range<usize>)
    requires
        is_boundary(buf@, cur as int),
    ensures
        r.start == boff(buf@, fwd_words_range(buf@, idx_of(buf@, cur as int), n as nat, word_break@).0),
        r.end == boff(buf@, fwd_words_range(buf@, idx_of(buf@, cur as int), n as nat, word_break@).1),
{
    let _ = str_len(buf);
    let v = chars_of(buf);
    let wb = chars_of(word_break);
    let k = byte_to_index(&v, cur);
    let start = words_fwd_exec(&v, k, 1, &wb, false);
    let end = if n > 1 {
        let last = words_fwd_exec(&v, start, n - 1, &wb, false);
        skip_fwd_exec(&v, last, &wb, false)
    } else {
        skip_fwd_exec(&v, start, &wb, false)
    };
    let s = index_to_byte(&v, start);
    let e = index_to_byte(&v, end);
    s..e
}

// ---------------------------------------------------------------------
// Parentheses
// ---------------------------------------------------------------------

/// Scanning `s[..p]` backwards at nesting `level` with `delim` the open
/// string delimiter, the position of the `open` that brings the level to
/// zero.
pub open spec fn matching_open(
    s: Seq<char>,
    quotes: Seq<char>,
    open: char,
    close: char,
    p: int,
    level: int,
    delim: Option<char>,
) -> Option<int>
    decreases p,
{
    if p <= 0 || p > s.len() {
        None
    } else {
        let ch = s[p - 1];
        if delim == Some(ch) {
            matching_open(s, quotes, open, close, p - 1, level, None)
        } else if quotes.contains(ch) {
            matching_open(s, quotes, open, close, p - 1, level, Some(ch))
        } else if delim is None && ch == close {
            matching_open(s, quotes, open, close, p - 1, level + 1, delim)
        } else if delim is None && ch == open {
            if level - 1 == 0 {
                Some(p - 1)
            } else {
                matching_open(s, quotes, open, close, p - 1, level - 1, delim)
            }
        } else {
            matching_open(s, quotes, open, close, p - 1, level, delim)
        }
    }
}

/// Searching back from the end of `s`, the byte offset of the `open`
/// parenthesis matching the outermost unmatched `close`, skipping text
/// between quote characters.
pub fn find_matching_paren(s: &str, quotes: &str, open: char, close: char) -> (r: Option<usize>)
    requires
        s@.len() < 0x7fff_ffff,
    ensures
        match matching_open(s@, quotes@, open, close, s@.len() as int, 0, None) {
            Some(j) => r == Some(boff(s@, j) as usize),
            None => r is None,
        },
{
    let _ = str_len(s);
    let v = chars_of(s);
    let qv = chars_of(quotes);
    let mut p = v.len();
    let mut level: i32 = 0;
    let mut string_delim: Option<char> = None;
    while p > 0
        invariant
            v@ == s@,
            qv@ == quotes@,
            blen(s@) <= usize::MAX,
            p <= v@.len() < 0x7fff_ffff,
            -(v@.len() - p) <= level <= v@.len() - p,
            matching_open(s@, quotes@, open, close, s@.len() as int, 0, None) == matching_open(
                s@,
                quotes@,
                open,
                close,
                p as int,
                level as int,
                string_delim,
            ),
        decreases p,
    {
        let ch = v[p - 1];
        if string_delim == Some(ch) {
            string_delim = None;
        } else if contains_char(&qv, ch) {
            string_delim = Some(ch);
        } else if string_delim.is_none() && ch == close {
            level = level + 1;
        } else if string_delim.is_none() && ch == open {
            level = level - 1;
            if level == 0 {
                return Some(index_to_byte(&v, p - 1));
            }
        }
        p = p - 1;
    }
    None
}


/// Going back over words lands at the start of the line or at the start of
/// a word: a word break before it and none at it, before where it started.
pub proof fn lemma_words_back_start(s: Seq<char>, p: int, n: nat, wb: Seq<char>)
    requires
        0 <= p <= s.len(),
        n > 0,
    ensures
        0 <= words_back(s, p, n, wb) <= p,
        words_back(s, p, n, wb) == 0 || (words_back(s, p, n, wb) < p && wb.contains(s[words_back(s, p, n, wb) - 1])
            && !wb.contains(s[words_back(s, p, n, wb)])),
    decreases n,
{
    let p1 = skip_back(s, p, wb, true);
    lemma_skip_back(s, p, wb, true);
    if p1 > 0 {
        let p2 = skip_back(s, p1, wb, false);
        lemma_skip_back(s, p1, wb, false);
        if p2 > 0 {
            assert(p2 < p1) by {
                if p2 == p1 {
                    assert(wb.contains(s[p1 - 1]) != true);
                    assert(wb.contains(s[p2 - 1]) != false);
                }
            }
            assert(!wb.contains(s[p2]));
            assert(words_back(s, p, n, wb) == words_back(s, p2, (n - 1) as nat, wb));
            if n > 1 {
                lemma_words_back_start(s, p2, (n - 1) as nat, wb);
            } else {
                assert(words_back(s, p2, 0, wb) == p2);
            }
        }
    }
}

/// Going forward while characters are (`want`) or are not word breaks
/// stops at the first that is not so, or at the end.
proof fn lemma_skip_fwd_stop(s: Seq<char>, p: int, wb: Seq<char>, want: bool)
    requires
        0 <= p <= s.len(),
    ensures
        p <= skip_fwd(s, p, wb, want) <= s.len(),
        forall|i: int| p <= i < skip_fwd(s, p, wb, want) ==> wb.contains(#[trigger] s[i]) == want,
        skip_fwd(s, p, wb, want) < s.len() ==> wb.contains(s[skip_fwd(s, p, wb, want)]) != want,
    decreases s.len() - p,
{
    if 0 <= p < s.len() && wb.contains(s[p]) == want {
        lemma_skip_fwd_stop(s, p + 1, wb, want);
    }
}

/// Going forward over words lands at the end of the line or, past where it
/// started, at a boundary between a word and a word break: with
/// `forward_word` (`breaks_first`) at the end of a word, a word character
/// before it and a word break at it; with `next_word` at the start of a
/// word, a word break before it and a word character at it.
pub proof fn lemma_words_fwd_end(s: Seq<char>, p: int, n: nat, wb: Seq<char>, breaks_first: bool)
    requires
        0 <= p <= s.len(),
        n > 0,
    ensures
        p <= words_fwd(s, p, n, wb, breaks_first) <= s.len(),
        words_fwd(s, p, n, wb, breaks_first) == s.len() || (p < words_fwd(s, p, n, wb, breaks_first)
            && wb.contains(s[words_fwd(s, p, n, wb, breaks_first) - 1]) == !breaks_first
            && wb.contains(s[words_fwd(s, p, n, wb, breaks_first)]) == breaks_first),
    decreases n,
{
    let p1 = skip_fwd(s, p, wb, breaks_first);
    lemma_skip_fwd_stop(s, p, wb, breaks_first);
    if p1 < s.len() {
        let p2 = skip_fwd(s, p1, wb, !breaks_first);
        lemma_skip_fwd_stop(s, p1, wb, !breaks_first);
        if p2 < s.len() {
            assert(p1 < p2) by {
                if p2 == p1 {
                    assert(wb.contains(s[p1]) != breaks_first);
                    assert(wb.contains(s[p2]) != !breaks_first);
                }
            }
            assert(wb.contains(s[p2 - 1]) == !breaks_first);
            assert(words_fwd(s, p, n, wb, breaks_first) == words_fwd(s, p2, (n - 1) as nat, wb, breaks_first));
            if n > 1 {
                lemma_words_fwd_end(s, p2, (n - 1) as nat, wb, breaks_first);
            } else {
                assert(words_fwd(s, p2, 0, wb, breaks_first) == p2);
            }
        }
    }
}

/// One word forward lands at the nearest such boundary: none lies strictly
/// between where it started and where it lands.
pub proof fn lemma_one_word_fwd_nearest(s: Seq<char>, p: int, wb: Seq<char>, breaks_first: bool)
    requires
        0 <= p <= s.len(),
    ensures
        forall|q: int|
            p < q < words_fwd(s, p, 1, wb, breaks_first) ==> !(wb.contains(#[trigger] s[q - 1]) == !breaks_first
                && wb.contains(s[q]) == breaks_first),
{
    let p1 = skip_fwd(s, p, wb, breaks_first);
    lemma_skip_fwd_stop(s, p, wb, breaks_first);
    if p1 < s.len() {
        let p2 = skip_fwd(s, p1, wb, !breaks_first);
        lemma_skip_fwd_stop(s, p1, wb, !breaks_first);
        let r = words_fwd(s, p, 1, wb, breaks_first);
        if p2 < s.len() {
            assert(words_fwd(s, p2, 0, wb, breaks_first) == p2);
        }
        assert(r <= p2);
        assert forall|q: int| p < q < r implies !(wb.contains(#[trigger] s[q - 1]) == !breaks_first
            && wb.contains(s[q]) == breaks_first) by {
            if q <= p1 {
                assert(wb.contains(s[q - 1]) == breaks_first);
            } else {
                assert(wb.contains(s[q]) == !breaks_first);
            }
        }
    }
}

/// Going `n` words forward is going one word forward, then `n - 1` more.
pub proof fn lemma_words_fwd_split(s: Seq<char>, p: int, n: nat, wb: Seq<char>, breaks_first: bool)
    requires
        0 <= p <= s.len(),
        n > 0,
    ensures
        words_fwd(s, p, n, wb, breaks_first) == words_fwd(s, words_fwd(s, p, 1, wb, breaks_first), (n - 1) as nat, wb, breaks_first),
{
    let p1 = skip_fwd(s, p, wb, breaks_first);
    lemma_skip_fwd_stop(s, p, wb, breaks_first);
    let len = s.len() as int;
    if n > 1 {
        assert(skip_fwd(s, len, wb, breaks_first) == len);
    }
    if p1 < s.len() {
        let p2 = skip_fwd(s, p1, wb, !breaks_first);
        if p2 < s.len() {
            assert(words_fwd(s, p2, 0, wb, breaks_first) == p2);
        }
    }
}

/// The parenthesis that `matching_open` finds is an `open` one, before
/// where the search started.
pub proof fn lemma_matching_open_found(
    s: Seq<char>,
    quotes: Seq<char>,
    open: char,
    close: char,
    p: int,
    level: int,
    delim: Option<char>,
)
    ensures
        matching_open(s, quotes, open, close, p, level, delim) matches Some(k) ==> 0 <= k < p && s[k] == open,
    decreases p,
{
    if 0 < p <= s.len() {
        let ch = s[p - 1];
        lemma_matching_open_found(s, quotes, open, close, p - 1, level, None);
        lemma_matching_open_found(s, quotes, open, close, p - 1, level, Some(ch));
        lemma_matching_open_found(s, quotes, open, close, p - 1, level + 1, delim);
        lemma_matching_open_found(s, quotes, open, close, p - 1, level - 1, delim);
        lemma_matching_open_found(s, quotes, open, close, p - 1, level, delim);
    }
}

} // verus!
