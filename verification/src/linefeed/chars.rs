//! Character names and control sequences used in key bindings.
use vstd::prelude::*;

use crate::text::chars_of;
use crate::text::push_char;
use crate::text::slice_eq;

verus! {

/// Escape character
pub const ESCAPE: char = '\x1b';

/// Delete (rubout) character
pub const DELETE: char = '\x7f';

/// The control character corresponding to `c` (its code modulo 32).
pub open spec fn ctrl_of(c: char) -> u32 {
    (c as u32) % 32
}

/// Returns the control character corresponding to the given character,
/// e.g. `ctrl('c') == '\x03'`.
pub fn ctrl(ch: char) -> (r: char)
    ensures
        r as u32 == ctrl_of(ch),
{
    let b = ch as u8;
    let x = b & 0x1f;
    proof {
        let u = ch as u32;
        assert(b == u as u8);
        assert((u as u8) & 0x1f == u % 32) by (bit_vector);
    }
    x as char
}

/// The two-character sequence `ESC ch`.
pub fn meta(ch: char) -> (s: String)
    ensures
        s@ == seq![ESCAPE, ch],
{
    let mut s = String::new();
    push_char(&mut s, ESCAPE);
    push_char(&mut s, ch);
    proof {
        assert(s@ =~= seq![ESCAPE, ch]);
    }
    s
}

/// The lowercase mapping of `s` as computed by `str::to_lowercase`.
pub uninterp spec fn lowercase(s: Seq<char>) -> Seq<char>;

/// Lowercases a string.
///
/// Calls `str::to_lowercase`; the contract names its result `lowercase(s@)`
/// and states nothing else about it.
#[verifier::external_body]
fn to_lowercase(s: &str) -> (r: Vec<char>)
    ensures
        r@ == lowercase(s@),
{
    s.to_lowercase().chars().collect()
}

/// Whether `p` occurs as a contiguous part of `s`.
pub open spec fn contains_seq(s: Seq<char>, p: Seq<char>) -> bool {
    exists|i: int| 0 <= i && i + p.len() <= s.len() && #[trigger] s.subrange(i, i + p.len()) == p
}

/// Whether `lit` occurs in `v`.
pub(crate) fn contains_lit(v: &Vec<char>, lit: &str) -> (b: bool)
    ensures
        b == contains_seq(v@, lit@),
{
    let w = chars_of(lit);
    if w.len() > v.len() {
        return false;
    }
    if w.len() == 0 {
        assert(v@.subrange(0, 0int + lit@.len()) =~= lit@);
        return true;
    }
    let count = v.len() - w.len() + 1;
    let mut i: usize = 0;
    while i < count
        invariant
            w@ == lit@,
            0 < w@.len() <= v@.len(),
            count == v@.len() - w@.len() + 1,
            i <= count,
            forall|k: int| 0 <= k < i ==> #[trigger] v@.subrange(k, k + w@.len()) != lit@,
        decreases v@.len() - i,
    {
        assert(i + w.len() <= v.len());
        if slice_eq(v.as_slice(), i, i + w.len(), lit) {
            assert(v@.subrange(i as int, i + lit@.len()) == lit@);
            return true;
        }
        i = i + 1;
    }
    assert forall|k: int| 0 <= k && k + lit@.len() <= v@.len() implies #[trigger] v@.subrange(
        k,
        k + lit@.len(),
    ) != lit@ by {}
    false
}

/// Position of the last `c` in `s`.
pub open spec fn last_index_of(s: Seq<char>, c: char) -> Option<int>
    decreases s.len(),
{
    if s.len() == 0 {
        None
    } else if s.last() == c {
        Some(s.len() - 1)
    } else {
        last_index_of(s.drop_last(), c)
    }
}

/// Index of the last `c` in `v`.
pub fn last_index(v: &Vec<char>, c: char) -> (r: Option<usize>)
    ensures
        match last_index_of(v@, c) {
            Some(k) => r == Some(k as usize),
            None => r is None,
        },
{
    let mut p = v.len();
    proof {
        assert(v@.take(p as int) =~= v@);
    }
    while p > 0 && v[p - 1] != c
        invariant
            p <= v@.len(),
            last_index_of(v@, c) == last_index_of(v@.take(p as int), c),
        decreases p,
    {
        assert(v@.take(p as int).drop_last() =~= v@.take(p - 1));
        p = p - 1;
    }
    if p > 0 {
        assert(v@.take(p as int).last() == c);
        Some(p - 1)
    } else {
        assert(v@.take(0) =~= Seq::<char>::empty());
        None
    }
}

/// Index of the last `c` in `s` is where it stands.
pub proof fn lemma_last_index_of(s: Seq<char>, c: char)
    ensures
        match last_index_of(s, c) {
            Some(k) => 0 <= k < s.len() && s[k] == c && forall|j: int| k < j < s.len() ==> s[j] != c,
            None => forall|j: int| 0 <= j < s.len() ==> s[j] != c,
        },
    decreases s.len(),
{
    if s.len() > 0 {
        let t = s.drop_last();
        lemma_last_index_of(t, c);
        assert forall|j: int| 0 <= j < t.len() implies t[j] == s[j] by {}
        if s.last() != c {
            assert(s[s.len() - 1] != c);
        }
    }
}

/// The key named by the final component of a lowercase key name.
pub open spec fn named_key(name: Seq<char>) -> Option<char> {
    if name == "del"@ || name == "rubout"@ {
        Some(DELETE)
    } else if name == "esc"@ || name == "escape"@ {
        Some(ESCAPE)
    } else if name == "lfd"@ || name == "newline"@ {
        Some('\n')
    } else if name == "ret"@ || name == "return"@ {
        Some('\r')
    } else if name == "spc"@ || name == "space"@ {
        Some(' ')
    } else if name == "tab"@ {
        Some('\t')
    } else if name.len() > 0 {
        Some(name[0])
    } else {
        None
    }
}

/// The character sequence for the key name `lc` (already lowercased):
/// a `c-`, `ctrl-` or `control-` part selects the control character, an
/// `m-` or `meta-` part prefixes an escape.
pub open spec fn char_name_seq(lc: Seq<char>) -> Option<Seq<char>> {
    let is_ctrl = contains_seq(lc, "c-"@) || contains_seq(lc, "ctrl-"@) || contains_seq(
        lc,
        "control-"@,
    );
    let is_meta = contains_seq(lc, "m-"@) || contains_seq(lc, "meta-"@);
    let name = match last_index_of(lc, '-') {
        Some(p) => lc.skip(p + 1),
        None => lc,
    };
    match named_key(name) {
        None => None,
        Some(ch) => {
            let base = if is_ctrl {
                (ctrl_of(ch) as char)
            } else {
                ch
            };
            if is_meta {
                Some(seq![ESCAPE, base])
            } else {
                Some(seq![base])
            }
        },
    }
}

/// Parses a key name such as `Ctrl-k`, `Meta-x` or `Tab` into the
/// character sequence it denotes.
pub fn parse_char_name(name: &str) -> (r: Option<String>)
    ensures
        match r {
            Some(s) => char_name_seq(lowercase(name@)) == Some(s@),
            None => char_name_seq(lowercase(name@)) is None,
        },
{
    let lc = to_lowercase(name);
    let is_ctrl = contains_lit(&lc, "c-") || contains_lit(&lc, "ctrl-") || contains_lit(
        &lc,
        "control-",
    );
    let is_meta = contains_lit(&lc, "m-") || contains_lit(&lc, "meta-");

    // Start of the final component: just past the last '-'.
    let mut p = lc.len();
    proof {
        assert(lc@.take(p as int) =~= lc@);
    }
    while p > 0 && lc[p - 1] != '-'
        invariant
            p <= lc@.len(),
            last_index_of(lc@, '-') == last_index_of(lc@.take(p as int), '-'),
        decreases p,
    {
        assert(lc@.take(p as int).drop_last() =~= lc@.take(p - 1));
        p = p - 1;
    }
    proof {
        if p > 0 {
            assert(lc@.take(p as int).last() == '-');
        } else {
            assert(lc@.take(0) =~= Seq::<char>::empty());
        }
        assert(lc@.subrange(p as int, lc@.len() as int) =~= (match last_index_of(lc@, '-') {
            Some(q) => lc@.skip(q + 1),
            None => lc@,
        }));
    }
    let n = lc.len();
    let s = lc.as_slice();
    let ch = if slice_eq(s, p, n, "del") || slice_eq(s, p, n, "rubout") {
        DELETE
    } else if slice_eq(s, p, n, "esc") || slice_eq(s, p, n, "escape") {
        ESCAPE
    } else if slice_eq(s, p, n, "lfd") || slice_eq(s, p, n, "newline") {
        '\n'
    } else if slice_eq(s, p, n, "ret") || slice_eq(s, p, n, "return") {
        '\r'
    } else if slice_eq(s, p, n, "spc") || slice_eq(s, p, n, "space") {
        ' '
    } else if slice_eq(s, p, n, "tab") {
        '\t'
    } else if p < n {
        lc[p]
    } else {
        return None;
    };
    let base = if is_ctrl {
        let c = ctrl(ch);
        proof {
            vstd::utf8::char_u32_cast(c, ctrl_of(ch));
        }
        c
    } else {
        ch
    };
    let mut out = String::new();
    if is_meta {
        push_char(&mut out, ESCAPE);
    }
    push_char(&mut out, base);
    proof {
        if is_meta {
            assert(out@ =~= seq![ESCAPE, base]);
        } else {
            assert(out@ =~= seq![base]);
        }
    }
    Some(out)
}

} // verus!
