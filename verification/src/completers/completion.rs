//! Completions, and lists of them kept in the order of their text.
use vstd::prelude::*;

use vstd::multiset::Multiset;

use crate::linefeed::reader::key_lt;
use crate::text::chars_of;

verus! {

/// What follows a completion inserted into the line.
#[derive(Clone, Copy, Debug, PartialEq, Eq, Structural)]
pub enum Suffix {
    /// The reader's usual completion append character.
    Default,
    /// This character.
    Char(char),
}

/// A possible completion of a word.
#[derive(Debug, PartialEq, Eq)]
pub struct Completion {
    /// The text that replaces the word.
    pub completion: String,
    /// What to show in a list of completions, when not `completion`.
    pub display: Option<String>,
    /// What follows the completion.
    pub suffix: Suffix,
}

/// A completion as plain values.
pub struct CompletionView {
    pub completion: Seq<char>,
    pub display: Option<Seq<char>>,
    pub suffix: Suffix,
}

/// The completion as plain values.
pub open spec fn completion_view(c: Completion) -> CompletionView {
    CompletionView {
        completion: c.completion@,
        display: match c.display {
            Some(d) => Some(d@),
            None => None,
        },
        suffix: c.suffix,
    }
}

/// The completions as plain values.
pub open spec fn completions_view(v: Seq<Completion>) -> Seq<CompletionView> {
    v.map_values(|c: Completion| completion_view(c))
}

/// The completions are in the order of their text (`str`'s order), equal
/// texts allowed.
pub open spec fn sorted_by_completion(v: Seq<CompletionView>) -> bool {
    forall|i: int, j: int| 0 <= i < j < v.len() ==> !key_lt(#[trigger] v[j].completion, #[trigger] v[i].completion)
}

/// `s`, in order, with `x` put after every completion whose text does not
/// come after its own.
pub open spec fn insert_sorted(s: Seq<CompletionView>, x: CompletionView) -> Seq<CompletionView>
    decreases s.len(),
{
    if s.len() == 0 {
        seq![x]
    } else if key_lt(x.completion, s[0].completion) {
        seq![x] + s
    } else {
        seq![s[0]] + insert_sorted(s.drop_first(), x)
    }
}

/// The completions sorted by their text; of equal texts the earlier comes
/// first (a stable sort).
pub open spec fn sort_completions(s: Seq<CompletionView>) -> Seq<CompletionView>
    decreases s.len(),
{
    if s.len() == 0 {
        s
    } else {
        insert_sorted(sort_completions(s.drop_last()), s.last())
    }
}

/// `key_lt` never holds both ways.
pub proof fn lemma_key_lt_asym(a: Seq<char>, b: Seq<char>)
    ensures
        !(key_lt(a, b) && key_lt(b, a)),
    decreases a.len(),
{
    if a.len() > 0 && b.len() > 0 && a[0] == b[0] {
        lemma_key_lt_asym(a.drop_first(), b.drop_first());
    }
}

/// `key_lt` is transitive.
pub proof fn lemma_key_lt_trans(a: Seq<char>, b: Seq<char>, c: Seq<char>)
    requires
        key_lt(a, b),
        key_lt(b, c),
    ensures
        key_lt(a, c),
    decreases a.len(),
{
    if a.len() > 0 && b.len() > 0 && c.len() > 0 && a[0] == b[0] && b[0] == c[0] {
        lemma_key_lt_trans(a.drop_first(), b.drop_first(), c.drop_first());
    }
}

/// `key_lt` is a strict order: never both ways, and transitive.
pub proof fn lemma_key_lt_order(a: Seq<char>, b: Seq<char>, c: Seq<char>)
    ensures
        !(key_lt(a, b) && key_lt(b, a)),
        key_lt(a, b) && key_lt(b, c) ==> key_lt(a, c),
{
    lemma_key_lt_asym(a, b);
    if key_lt(a, b) && key_lt(b, c) {
        lemma_key_lt_trans(a, b, c);
    }
}

/// Of two different texts, one comes before the other.
pub proof fn lemma_key_lt_total(a: Seq<char>, b: Seq<char>)
    ensures
        a == b || key_lt(a, b) || key_lt(b, a),
    decreases a.len(),
{
    if a.len() > 0 && b.len() > 0 && a[0] == b[0] {
        lemma_key_lt_total(a.drop_first(), b.drop_first());
        if a.drop_first() == b.drop_first() {
            assert(a =~= seq![a[0]] + a.drop_first());
            assert(b =~= seq![b[0]] + b.drop_first());
        }
    } else if a.len() == 0 && b.len() == 0 {
        assert(a =~= b);
    }
}

/// Inserting into a sorted list keeps it sorted and adds `x` once.
pub proof fn lemma_insert_sorted(s: Seq<CompletionView>, x: CompletionView)
    requires
        sorted_by_completion(s),
    ensures
        sorted_by_completion(insert_sorted(s, x)),
        insert_sorted(s, x).len() == s.len() + 1,
        insert_sorted(s, x).to_multiset() == s.to_multiset().insert(x),
    decreases s.len(),
{
    let r = insert_sorted(s, x);
    if s.len() == 0 {
        assert(r =~= seq![x]);
        assert(seq![x].to_multiset() =~= Seq::<CompletionView>::empty().to_multiset().insert(x)) by {
            broadcast use vstd::seq_lib::group_to_multiset_ensures;
            assert(seq![x] =~= Seq::<CompletionView>::empty().push(x));
        }
        assert(s =~= Seq::<CompletionView>::empty());
    } else if key_lt(x.completion, s[0].completion) {
        assert forall|i: int, j: int| 0 <= i < j < r.len() implies !key_lt(#[trigger] r[j].completion, #[trigger] r[i].completion) by {
            if i == 0 {
                lemma_key_lt_order(x.completion, s[0].completion, s[j - 1].completion);
                lemma_key_lt_order(s[j - 1].completion, x.completion, s[0].completion);
                if j - 1 > 0 {
                    assert(!key_lt(s[j - 1].completion, s[0].completion));
                }
                lemma_key_lt_order(s[j - 1].completion, s[0].completion, x.completion);
                lemma_key_lt_total(s[j - 1].completion, s[0].completion);
            } else {
                assert(r[i] == s[i - 1] && r[j] == s[j - 1]);
            }
        }
        vstd::seq_lib::lemma_multiset_commutative(seq![x], s);
        assert(seq![x].to_multiset() =~= Seq::<CompletionView>::empty().to_multiset().insert(x)) by {
            broadcast use vstd::seq_lib::group_to_multiset_ensures;
            assert(seq![x] =~= Seq::<CompletionView>::empty().push(x));
        }
        assert(Seq::<CompletionView>::empty().to_multiset() =~= Multiset::empty()) by {
            broadcast use vstd::seq_lib::group_to_multiset_ensures;
        }
        assert(r.to_multiset() =~= s.to_multiset().insert(x));
    } else {
        let t = s.drop_first();
        assert forall|i: int, j: int| 0 <= i < j < t.len() implies !key_lt(#[trigger] t[j].completion, #[trigger] t[i].completion) by {
            assert(t[i] == s[i + 1] && t[j] == s[j + 1]);
        }
        lemma_insert_sorted(t, x);
        let u = insert_sorted(t, x);
        assert(r == seq![s[0]] + u);
        assert forall|i: int, j: int| 0 <= i < j < r.len() implies !key_lt(#[trigger] r[j].completion, #[trigger] r[i].completion) by {
            if i == 0 {
                // r[j] is x or an element of t, none of which comes before s[0].
                assert(r[j] == u[j - 1]);
                assert(u.to_multiset().count(u[j - 1]) > 0) by {
                    vstd::seq_lib::lemma_seq_contains_after_push(u, u[j - 1], u[j - 1]);
                    broadcast use vstd::seq_lib::group_to_multiset_ensures;
                    assert(u.contains(u[j - 1]));
                }
                assert((t.to_multiset().insert(x)).count(u[j - 1]) > 0);
                if u[j - 1] != x {
                    assert(t.to_multiset().count(u[j - 1]) > 0);
                    broadcast use vstd::seq_lib::group_to_multiset_ensures;
                    assert(t.contains(u[j - 1]));
                    let k = choose|k: int| 0 <= k < t.len() && t[k] == u[j - 1];
                    assert(s[k + 1] == u[j - 1]);
                    assert(!key_lt(s[k + 1].completion, s[0].completion));
                }
            } else {
                assert(r[i] == u[i - 1] && r[j] == u[j - 1]);
            }
        }
        vstd::seq_lib::lemma_multiset_commutative(seq![s[0]], u);
        vstd::seq_lib::lemma_multiset_commutative(seq![s[0]], t);
        assert(seq![s[0]] + t =~= s);
        assert(r.to_multiset() =~= s.to_multiset().insert(x));
    }
}

/// Sorting gives a sorted list of the same completions.
pub proof fn lemma_sort_completions(s: Seq<CompletionView>)
    ensures
        sorted_by_completion(sort_completions(s)),
        sort_completions(s).to_multiset() == s.to_multiset(),
        sort_completions(s).len() == s.len(),
    decreases s.len(),
{
    if s.len() > 0 {
        lemma_sort_completions(s.drop_last());
        lemma_insert_sorted(sort_completions(s.drop_last()), s.last());
        assert(s.drop_last().push(s.last()) =~= s);
        broadcast use vstd::seq_lib::group_to_multiset_ensures;
        assert(s.drop_last().push(s.last()).to_multiset() == s.drop_last().to_multiset().insert(s.last()));
    }
}

/// Whether `a` comes before `b` in `str`'s order.
pub fn str_lt(a: &str, b: &str) -> (r: bool)
    ensures
        r == key_lt(a@, b@),
{
    let v = chars_of(a);
    let w = chars_of(b);
    let mut i: usize = 0;
    assert(a@.skip(0) =~= a@);
    assert(b@.skip(0) =~= b@);
    while i < v.len() && i < w.len() && v[i] == w[i]
        invariant
            v@ == a@,
            w@ == b@,
            i <= v@.len(),
            i <= w@.len(),
            key_lt(a@, b@) == key_lt(a@.skip(i as int), b@.skip(i as int)),
        decreases v@.len() - i,
    {
        assert(a@.skip(i as int).drop_first() =~= a@.skip(i + 1));
        assert(b@.skip(i as int).drop_first() =~= b@.skip(i + 1));
        i = i + 1;
    }
    if i == v.len() {
        i < w.len()
    } else if i == w.len() {
        false
    } else {
        assert(a@.skip(i as int)[0] == v@[i as int]);
        assert(b@.skip(i as int)[0] == w@[i as int]);
        v[i] < w[i]
    }
}

/// Puts `x` into the sorted `v` after every completion whose text does not
/// come after its own.
pub fn insert_completion(v: &mut Vec<Completion>, x: Completion)
    ensures
        completions_view(final(v)@) == insert_sorted(completions_view(old(v)@), completion_view(x)),
{
    let ghost s = completions_view(v@);
    let ghost xv = completion_view(x);
    let mut i: usize = 0;
    proof {
        assert(s.skip(0) =~= s);
        assert(s.take(0) + s.skip(0) =~= s);
    }
    while i < v.len() && !str_lt(x.completion.as_str(), v[i].completion.as_str())
        invariant
            s == completions_view(v@),
            xv == completion_view(x),
            i <= v@.len(),
            insert_sorted(s, xv) == s.take(i as int) + insert_sorted(s.skip(i as int), xv),
        decreases v@.len() - i,
    {
        proof {
            let t = s.skip(i as int);
            assert(t[0] == s[i as int]);
            assert(t.drop_first() =~= s.skip(i + 1));
            assert(s.take(i as int) + seq![s[i as int]] =~= s.take(i + 1));
            assert(s.take(i as int) + (seq![t[0]] + insert_sorted(t.drop_first(), xv)) =~= s.take(i + 1)
                + insert_sorted(s.skip(i + 1), xv));
        }
        i = i + 1;
    }
    proof {
        let t = s.skip(i as int);
        if i < s.len() {
            assert(t[0] == s[i as int]);
            assert(insert_sorted(t, xv) == seq![xv] + t);
        } else {
            assert(t =~= Seq::<CompletionView>::empty());
        }
    }
    v.insert(i, x);
    proof {
        assert(completions_view(v@) =~= s.take(i as int) + (seq![xv] + s.skip(i as int)));
    }
}

/// Sorts `v` by the text of its completions; of equal texts the earlier
/// stays first.
pub fn sort_by_completion(v: Vec<Completion>) -> (r: Vec<Completion>)
    ensures
        completions_view(r@) == sort_completions(completions_view(v@)),
        sorted_by_completion(completions_view(r@)),
{
    let ghost s = completions_view(v@);
    let mut rest = v;
    let mut out: Vec<Completion> = Vec::new();
    let mut k: usize = 0;
    let n = rest.len();
    proof {
        assert(completions_view(rest@) =~= s.skip(0));
        assert(completions_view(out@) =~= sort_completions(s.take(0)));
    }
    while k < n
        invariant
            n == s.len(),
            k <= n,
            rest@.len() == n - k,
            completions_view(rest@) == s.skip(k as int),
            completions_view(out@) == sort_completions(s.take(k as int)),
        decreases n - k,
    {
        let ghost before = rest@;
        let x = rest.remove(0);
        proof {
            assert(completion_view(x) == completions_view(before)[0]);
            assert(completion_view(x) == s[k as int]);
            assert(completions_view(rest@) =~= completions_view(before).drop_first());
            assert(s.skip(k as int).drop_first() =~= s.skip(k + 1));
            assert(s.take(k + 1).drop_last() =~= s.take(k as int));
            assert(s.take(k + 1).last() == s[k as int]);
        }
        insert_completion(&mut out, x);
        k = k + 1;
    }
    proof {
        assert(s.take(n as int) =~= s);
        lemma_sort_completions(s);
    }
    out
}

} // verus!
