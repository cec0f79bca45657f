//! Character-level helpers shared by the line editor and the shell code.
//!
//! Strings are viewed as sequences of `char`; byte offsets into a string are
//! the lengths of the UTF-8 encodings of its prefixes.
use vstd::prelude::*;

verus! {

/// Number of bytes in the UTF-8 encoding of `c`.
pub open spec fn clen(c: char) -> nat {
    if (c as u32) < 0x80 {
        1
    } else if (c as u32) < 0x800 {
        2
    } else if (c as u32) < 0x10000 {
        3
    } else {
        4
    }
}

/// Number of bytes in the UTF-8 encoding of `s`.
pub open spec fn blen(s: Seq<char>) -> nat
    decreases s.len(),
{
    if s.len() == 0 {
        0
    } else {
        blen(s.drop_last()) + clen(s.last())
    }
}

/// Byte offset of the character at index `k` of `s`.
pub open spec fn boff(s: Seq<char>, k: int) -> nat {
    blen(s.take(k))
}

/// Byte length is additive over concatenation.
pub proof fn lemma_blen_concat(a: Seq<char>, b: Seq<char>)
    ensures
        blen(a + b) == blen(a) + blen(b),
    decreases b.len(),
{
    if b.len() == 0 {
        assert(a + b =~= a);
    } else {
        lemma_blen_concat(a, b.drop_last());
        assert((a + b).drop_last() =~= a + b.drop_last());
    }
}

/// The byte length of a one-character sequence.
pub proof fn lemma_blen_single(c: char)
    ensures
        blen(seq![c]) == clen(c),
{
    assert(seq![c].drop_last() =~= Seq::<char>::empty());
    assert(blen(Seq::<char>::empty()) == 0);
    assert(seq![c].last() == c);
}

/// Byte offsets grow with the character index.
pub proof fn lemma_boff_step(s: Seq<char>, k: int)
    requires
        0 <= k < s.len(),
    ensures
        boff(s, k + 1) == boff(s, k) + clen(s[k]),
{
    assert(s.take(k + 1).drop_last() =~= s.take(k));
}

/// Byte offsets are strictly monotone in the character index.
pub proof fn lemma_boff_mono(s: Seq<char>, i: int, j: int)
    requires
        0 <= i <= j <= s.len(),
    ensures
        boff(s, i) <= boff(s, j),
        i < j ==> boff(s, i) + (j - i) <= boff(s, j),
    decreases j - i,
{
    if i < j {
        lemma_boff_step(s, j - 1);
        lemma_boff_mono(s, i, j - 1);
    }
}

/// `blen` agrees with the length of vstd's UTF-8 encoding.
pub proof fn lemma_blen_encode(s: Seq<char>)
    ensures
        vstd::utf8::encode_utf8(s).len() == blen(s),
    decreases s.len(),
{
    if s.len() > 0 {
        let c = s[0];
        vstd::utf8::char_is_scalar(c);
        lemma_blen_encode(s.drop_first());
        assert(s =~= seq![c] + s.drop_first());
        lemma_blen_concat(seq![c], s.drop_first());
        lemma_blen_single(c);
    }
}

/// Exec counterpart of `clen`.
pub fn char_len(c: char) -> (n: usize)
    ensures
        n == clen(c),
{
    let u = c as u32;
    if u < 0x80 {
        1
    } else if u < 0x800 {
        2
    } else if u < 0x10000 {
        3
    } else {
        4
    }
}

/// The characters of `s`, in order.
pub fn chars_of(s: &str) -> (v: Vec<char>)
    ensures
        v@ == s@,
{
    let mut v: Vec<char> = Vec::new();
    for c in it: s.chars()
        invariant
            v@ == it.seq().take(it.index() as int),
    {
        v.push(c);
    }
    v
}

} // verus!
verus! {

/// Unicode `White_Space` property, as tested by `char::is_whitespace`.
pub open spec fn is_ws(c: char) -> bool {
    let u = c as u32;
    ||| 0x09 <= u <= 0x0d
    ||| u == 0x20
    ||| u == 0x85
    ||| u == 0xa0
    ||| u == 0x1680
    ||| 0x2000 <= u <= 0x200a
    ||| u == 0x2028
    ||| u == 0x2029
    ||| u == 0x202f
    ||| u == 0x205f
    ||| u == 0x3000
}

/// Whether `c` is a Unicode whitespace character.
pub fn is_whitespace(c: char) -> (b: bool)
    ensures
        b == is_ws(c),
{
    let u = c as u32;
    (0x09 <= u && u <= 0x0d) || u == 0x20 || u == 0x85 || u == 0xa0 || u == 0x1680 || (0x2000
        <= u && u <= 0x200a) || u == 0x2028 || u == 0x2029 || u == 0x202f || u == 0x205f || u
        == 0x3000
}

/// `s` with leading whitespace removed (`str::trim_start`).
pub open spec fn trim_start(s: Seq<char>) -> Seq<char>
    decreases s.len(),
{
    if s.len() > 0 && is_ws(s[0]) {
        trim_start(s.drop_first())
    } else {
        s
    }
}

/// `s` with trailing whitespace removed (`str::trim_end`).
pub open spec fn trim_end(s: Seq<char>) -> Seq<char>
    decreases s.len(),
{
    if s.len() > 0 && is_ws(s.last()) {
        trim_end(s.drop_last())
    } else {
        s
    }
}

/// `s` with whitespace removed at both ends (`str::trim`).
pub open spec fn trim(s: Seq<char>) -> Seq<char> {
    trim_end(trim_start(s))
}

/// Index of the first non-whitespace character of `v[i..end]`, or `end`.
pub fn skip_ws(v: &Vec<char>, i: usize, end: usize) -> (j: usize)
    requires
        i <= end <= v@.len(),
    ensures
        i <= j <= end,
        v@.subrange(j as int, end as int) == trim_start(v@.subrange(i as int, end as int)),
{
    let mut j = i;
    while j < end && is_whitespace(v[j])
        invariant
            i <= j <= end <= v@.len(),
            trim_start(v@.subrange(j as int, end as int)) == trim_start(
                v@.subrange(i as int, end as int),
            ),
        decreases end - j,
    {
        assert(v@.subrange(j as int, end as int).drop_first() =~= v@.subrange(
            j + 1,
            end as int,
        ));
        j = j + 1;
    }
    j
}

/// End index of `v[i..end]` once trailing whitespace is removed.
pub fn rskip_ws(v: &Vec<char>, i: usize, end: usize) -> (j: usize)
    requires
        i <= end <= v@.len(),
    ensures
        i <= j <= end,
        v@.subrange(i as int, j as int) == trim_end(v@.subrange(i as int, end as int)),
{
    let mut j = end;
    while j > i && is_whitespace(v[j - 1])
        invariant
            i <= j <= end <= v@.len(),
            trim_end(v@.subrange(i as int, j as int)) == trim_end(
                v@.subrange(i as int, end as int),
            ),
        decreases j - i,
    {
        assert(v@.subrange(i as int, j as int).drop_last() =~= v@.subrange(
            i as int,
            j - 1,
        ));
        j = j - 1;
    }
    j
}

/// Appends a character to a `String`.
///
/// Calls `String::push`; the contract states that the view grows by `c`.
#[verifier::external_body]
pub(crate) fn push_char(s: &mut String, c: char)
    ensures
        final(s)@ == old(s)@.push(c),
{
    s.push(c);
}

/// A `String` holding the characters `v[i..j]`.
pub fn string_of(v: &[char], i: usize, j: usize) -> (s: String)
    requires
        i <= j <= v@.len(),
    ensures
        s@ == v@.subrange(i as int, j as int),
{
    let mut s = String::new();
    let mut k = i;
    while k < j
        invariant
            i <= k <= j <= v@.len(),
            s@ == v@.subrange(i as int, k as int),
        decreases j - k,
    {
        push_char(&mut s, v[k]);
        assert(v@.subrange(i as int, k + 1) =~= v@.subrange(i as int, k as int).push(v@[k as int]));
        k = k + 1;
    }
    s
}

/// Whether `v[i..j]` equals `lit`.
pub fn slice_eq(v: &[char], i: usize, j: usize, lit: &str) -> (b: bool)
    requires
        i <= j <= v@.len(),
    ensures
        b == (v@.subrange(i as int, j as int) == lit@),
{
    let w = chars_of(lit);
    if j - i != w.len() {
        return false;
    }
    let mut k: usize = 0;
    while k < w.len()
        invariant
            j - i == w@.len(),
            i <= j <= v@.len(),
            w@ == lit@,
            0 <= k <= w@.len(),
            forall|t: int| 0 <= t < k ==> v@[i + t] == w@[t],
        decreases w@.len() - k,
    {
        if v[i + k] != w[k] {
            assert(v@.subrange(i as int, j as int)[k as int] != lit@[k as int]);
            return false;
        }
        k = k + 1;
    }
    assert(v@.subrange(i as int, j as int) =~= lit@);
    true
}

/// A copy of `v[i..j]`.
pub fn copy_range(v: &Vec<char>, i: usize, j: usize) -> (w: Vec<char>)
    requires
        i <= j <= v@.len(),
    ensures
        w@ == v@.subrange(i as int, j as int),
{
    let mut w: Vec<char> = Vec::new();
    let mut k = i;
    while k < j
        invariant
            i <= k <= j <= v@.len(),
            w@ == v@.subrange(i as int, k as int),
        decreases j - k,
    {
        w.push(v[k]);
        assert(v@.subrange(i as int, k + 1) =~= v@.subrange(i as int, k as int).push(v@[k as int]));
        k = k + 1;
    }
    w
}

/// A `String` holding the characters of `v`.
pub fn string_from_vec(v: &Vec<char>) -> (s: String)
    ensures
        s@ == v@,
{
    let s = string_of(v.as_slice(), 0, v.len());
    assert(v@.subrange(0, v@.len() as int) =~= v@);
    s
}

/// Whether the characters of `v` spell `lit`.
pub fn vec_eq(v: &Vec<char>, lit: &str) -> (b: bool)
    ensures
        b == (v@ == lit@),
{
    assert(v@.subrange(0, v@.len() as int) =~= v@);
    slice_eq(v.as_slice(), 0, v.len(), lit)
}

/// The views of a list of strings.
pub open spec fn strings_view(v: Seq<String>) -> Seq<Seq<char>> {
    v.map_values(|s: String| s@)
}

/// The parts joined with `sep` between them (`[String]::join`).
pub open spec fn join_seq(parts: Seq<Seq<char>>, sep: Seq<char>) -> Seq<char>
    decreases parts.len(),
{
    if parts.len() == 0 {
        Seq::empty()
    } else if parts.len() == 1 {
        parts[0]
    } else {
        join_seq(parts.drop_last(), sep) + sep + parts.last()
    }
}

/// The parts joined with `sep` between them.
pub fn join_strings(parts: &[String], sep: &str) -> (s: String)
    ensures
        s@ == join_seq(strings_view(parts@), sep@),
{
    let mut s = String::new();
    let mut i: usize = 0;
    while i < parts.len()
        invariant
            i <= parts@.len(),
            s@ == join_seq(strings_view(parts@.take(i as int)), sep@),
        decreases parts@.len() - i,
    {
        if i > 0 {
            s.append(sep);
        }
        s.append(parts[i].as_str());
        proof {
            let prev = strings_view(parts@.take(i as int));
            let next = strings_view(parts@.take(i + 1));
            assert(next.drop_last() =~= prev);
            assert(next.last() == parts@[i as int]@);
        }
        i = i + 1;
    }
    proof {
        assert(parts@.take(parts@.len() as int) =~= parts@);
    }
    s
}

/// Whether `c` is among `set`.
pub fn contains_char(set: &Vec<char>, c: char) -> (b: bool)
    ensures
        b == set@.contains(c),
{
    let mut i: usize = 0;
    while i < set.len()
        invariant
            i <= set@.len(),
            forall|k: int| 0 <= k < i ==> set@[k] != c,
        decreases set@.len() - i,
    {
        if set[i] == c {
            return true;
        }
        i = i + 1;
    }
    false
}

/// Whether `s` starts with `p` (`str::starts_with`).
pub fn str_starts_with(s: &str, p: &str) -> (b: bool)
    ensures
        b == p@.is_prefix_of(s@),
{
    let v = chars_of(s);
    let w = chars_of(p);
    if w.len() > v.len() {
        return false;
    }
    let mut i: usize = 0;
    while i < w.len()
        invariant
            v@ == s@,
            w@ == p@,
            w@.len() <= v@.len(),
            i <= w@.len(),
            forall|j: int| 0 <= j < i ==> v@[j] == w@[j],
        decreases w@.len() - i,
    {
        if v[i] != w[i] {
            assert(s@.subrange(0, p@.len() as int)[i as int] != p@[i as int]);
            return false;
        }
        i = i + 1;
    }
    assert(s@.subrange(0, p@.len() as int) =~= p@);
    true
}

/// A copy of `v` with surrounding whitespace removed.
pub fn trimmed(v: &Vec<char>) -> (w: Vec<char>)
    ensures
        w@ == trim(v@),
{
    let n = v.len();
    let a = skip_ws(v, 0, n);
    let b = rskip_ws(v, a, n);
    assert(v@.subrange(0, n as int) =~= v@);
    copy_range(v, a, b)
}

/// Whether `b` is the byte offset of a character boundary of `s`.
pub open spec fn is_boundary(s: Seq<char>, b: int) -> bool {
    exists|k: int| 0 <= k <= s.len() && boff(s, k) == b
}

/// The character index whose byte offset is `b`.
pub open spec fn idx_of(s: Seq<char>, b: int) -> int {
    choose|k: int| 0 <= k <= s.len() && boff(s, k) == b
}

/// Different character indices have different byte offsets.
pub proof fn lemma_boff_inj(s: Seq<char>, i: int, j: int)
    requires
        0 <= i <= s.len(),
        0 <= j <= s.len(),
        boff(s, i) == boff(s, j),
    ensures
        i == j,
{
    if i < j {
        lemma_boff_mono(s, i, j);
    } else if j < i {
        lemma_boff_mono(s, j, i);
    }
}

/// The character index of a boundary is the one `idx_of` names.
pub proof fn lemma_idx_of(s: Seq<char>, k: int)
    requires
        0 <= k <= s.len(),
    ensures
        is_boundary(s, boff(s, k) as int),
        idx_of(s, boff(s, k) as int) == k,
{
    let b = boff(s, k) as int;
    assert(0 <= k <= s.len() && boff(s, k) == b);
    let j = idx_of(s, b);
    lemma_boff_inj(s, j, k);
}

/// The character index at byte offset `b` of `v`.
pub fn byte_to_index(v: &Vec<char>, b: usize) -> (k: usize)
    requires
        is_boundary(v@, b as int),
    ensures
        k <= v@.len(),
        boff(v@, k as int) == b,
        k == idx_of(v@, b as int),
{
    let ghost k0 = idx_of(v@, b as int);
    let mut k: usize = 0;
    let mut acc: usize = 0;
    proof {
        assert(v@.take(0) =~= Seq::<char>::empty());
    }
    while acc < b
        invariant
            0 <= k0 <= v@.len(),
            boff(v@, k0) == b,
            k <= k0,
            acc == boff(v@, k as int),
            acc <= b,
        decreases b - acc,
    {
        proof {
            if k == k0 {
                assert(false);
            }
            lemma_boff_step(v@, k as int);
            lemma_boff_mono(v@, k + 1, k0);
            assert(k < v.len());
        }
        acc = acc + char_len(v[k]);
        k = k + 1;
    }
    proof {
        lemma_boff_inj(v@, k as int, k0);
    }
    k
}

/// Byte offset of character index `k` of `v`.
pub fn index_to_byte(v: &Vec<char>, k: usize) -> (b: usize)
    requires
        k <= v@.len(),
        blen(v@) <= usize::MAX,
    ensures
        b == boff(v@, k as int),
{
    let mut i: usize = 0;
    let mut acc: usize = 0;
    proof {
        assert(v@.take(0) =~= Seq::<char>::empty());
        assert(v@.take(v@.len() as int) =~= v@);
        lemma_boff_mono(v@, k as int, v@.len() as int);
    }
    while i < k
        invariant
            i <= k <= v@.len(),
            acc == boff(v@, i as int),
            boff(v@, k as int) <= usize::MAX,
        decreases k - i,
    {
        proof {
            lemma_boff_step(v@, i as int);
            lemma_boff_mono(v@, i + 1, k as int);
        }
        acc = acc + char_len(v[i]);
        i = i + 1;
    }
    acc
}

/// Byte length of `s` (`str::len`).
pub fn str_len(s: &str) -> (n: usize)
    ensures
        n == blen(s@),
{
    proof {
        lemma_blen_encode(s@);
    }
    let b = s.as_bytes();
    b.len()
}

} // verus!

verus! {

/// Whether two strings hold the same characters.
pub fn str_eq(a: &str, b: &str) -> (r: bool)
    ensures
        r == (a@ == b@),
{
    let v = chars_of(a);
    vec_eq(&v, b)
}

/// `c` is an ASCII decimal digit.
pub open spec fn is_digit(c: char) -> bool {
    '0' <= c <= '9'
}

/// The value of the decimal digit `c`.
pub open spec fn digit_value(c: char) -> int {
    c as int - '0' as int
}

/// The character of the decimal digit `d`.
pub open spec fn digit_char(d: int) -> char {
    (d + '0' as int) as char
}

/// Every character of `s` is a decimal digit.
pub open spec fn all_digits(s: Seq<char>) -> bool {
    forall|i: int| 0 <= i < s.len() ==> is_digit(#[trigger] s[i])
}

/// The number that the decimal digits `s` spell.
pub open spec fn digits_value(s: Seq<char>) -> int
    decreases s.len(),
{
    if s.len() == 0 {
        0
    } else {
        digits_value(s.drop_last()) * 10 + digit_value(s.last())
    }
}

/// The decimal digits of `n`, most significant first, without leading zeros
/// (a single `0` for zero).
pub open spec fn digits_of(n: nat) -> Seq<char>
    decreases n,
{
    if n < 10 {
        seq![digit_char(n as int)]
    } else {
        digits_of(n / 10).push(digit_char((n % 10) as int))
    }
}

/// The decimal form of `n`, with a leading `-` when it is negative.
pub open spec fn decimal(n: int) -> Seq<char> {
    if n < 0 {
        seq!['-'] + digits_of((-n) as nat)
    } else {
        digits_of(n as nat)
    }
}

/// What `str::parse` makes of `s` for a signed integer type, before the
/// range check: an optional `+` or `-` and at least one decimal digit,
/// nothing else.
pub open spec fn parse_int_spec(s: Seq<char>) -> Option<int> {
    let neg = s.len() > 0 && s[0] == '-';
    let body = if s.len() > 0 && (s[0] == '-' || s[0] == '+') { s.drop_first() } else { s };
    if body.len() > 0 && all_digits(body) {
        Some(if neg { -digits_value(body) } else { digits_value(body) })
    } else {
        None
    }
}

/// What `str::parse::<i32>` returns for `s`: the value when the text is a
/// well-formed integer within the range of `i32`, else an error (`None`).
pub open spec fn parse_i32_spec(s: Seq<char>) -> Option<i32> {
    match parse_int_spec(s) {
        Some(v) => if i32::MIN <= v <= i32::MAX { Some(v as i32) } else { None },
        None => None,
    }
}

/// Capping a running decimal value commutes with appending a digit.
proof fn lemma_capped_step(v: int, d: int, cap: int)
    requires
        v >= 0,
        0 <= d <= 9,
        cap >= 0,
    ensures
        (if v * 10 + d < cap { v * 10 + d } else { cap }) == (if (if v < cap { v } else { cap }) * 10 + d < cap {
            (if v < cap { v } else { cap }) * 10 + d
        } else {
            cap
        }),
{
    if v >= cap {
        assert(v * 10 + d >= cap) by (nonlinear_arith)
            requires
                v >= cap,
                cap >= 0,
                d >= 0,
        ;
        assert(cap * 10 + d >= cap) by (nonlinear_arith)
            requires
                cap >= 0,
                d >= 0,
        ;
    }
}

/// A decimal value is never negative.
proof fn lemma_digits_value_nonneg(s: Seq<char>)
    requires
        all_digits(s),
    ensures
        digits_value(s) >= 0,
    decreases s.len(),
{
    if s.len() > 0 {
        assert(all_digits(s.drop_last())) by {
            assert forall|i: int| 0 <= i < s.drop_last().len() implies is_digit(#[trigger] s.drop_last()[i]) by {
                assert(s.drop_last()[i] == s[i]);
            }
        }
        lemma_digits_value_nonneg(s.drop_last());
        assert(is_digit(s[s.len() - 1]));
    }
}

/// Parses a signed 32-bit decimal integer as `str::parse::<i32>` does.
pub fn parse_i32(s: &str) -> (r: Option<i32>)
    ensures
        r == parse_i32_spec(s@),
{
    let v = chars_of(s);
    let n = v.len();
    let neg = n > 0 && v[0] == '-';
    let start: usize = if n > 0 && (v[0] == '-' || v[0] == '+') { 1 } else { 0 };
    let ghost body = if s@.len() > 0 && (s@[0] == '-' || s@[0] == '+') { s@.drop_first() } else { s@ };
    assert(body =~= v@.skip(start as int));
    if start >= n {
        return None;
    }
    let cap: i64 = 0x1_0000_0000;
    let mut acc: i64 = 0;
    let mut k: usize = start;
    while k < n
        invariant
            v@ == s@,
            n == v@.len(),
            start <= k <= n,
            body == v@.skip(start as int),
            body == (if s@.len() > 0 && (s@[0] == '-' || s@[0] == '+') { s@.drop_first() } else { s@ }),
            cap == 0x1_0000_0000,
            all_digits(v@.subrange(start as int, k as int)),
            acc == (if digits_value(v@.subrange(start as int, k as int)) < cap {
                digits_value(v@.subrange(start as int, k as int))
            } else {
                cap as int
            }),
        decreases n - k,
    {
        let c = v[k];
        if !('0' <= c && c <= '9') {
            assert(body[k - start] == c);
            assert(!is_digit(body[k - start]));
            assert(!all_digits(body));
            return None;
        }
        let d = (c as u32 - '0' as u32) as i64;
        proof {
            let pre = v@.subrange(start as int, k as int);
            let nxt = v@.subrange(start as int, k + 1);
            assert(nxt.drop_last() =~= pre);
            assert(nxt.last() == c);
            lemma_digits_value_nonneg(pre);
            lemma_capped_step(digits_value(pre), d as int, cap as int);
            assert(all_digits(nxt)) by {
                assert forall|i: int| 0 <= i < nxt.len() implies is_digit(#[trigger] nxt[i]) by {
                    if i < pre.len() {
                        assert(nxt[i] == pre[i]);
                    }
                }
            }
        }
        let next = acc * 10 + d;
        acc = if next < cap { next } else { cap };
        k = k + 1;
    }
    assert(v@.subrange(start as int, n as int) =~= body);
    proof {
        lemma_digits_value_nonneg(body);
    }
    if acc >= cap {
        return None;
    }
    let value: i64 = if neg { -acc } else { acc };
    if value < -2147483648 || value > 2147483647 {
        None
    } else {
        Some(value as i32)
    }
}

/// Parses a signed 64-bit decimal integer as `str::parse::<i64>` does.
pub fn parse_i64(s: &str) -> (r: Option<i64>)
    ensures
        r == (match parse_int_spec(s@) {
            Some(v) => if i64::MIN <= v <= i64::MAX { Some(v as i64) } else { None },
            None => None,
        }),
{
    let v = chars_of(s);
    let n = v.len();
    let neg = n > 0 && v[0] == '-';
    let start: usize = if n > 0 && (v[0] == '-' || v[0] == '+') { 1 } else { 0 };
    let ghost body = if s@.len() > 0 && (s@[0] == '-' || s@[0] == '+') { s@.drop_first() } else { s@ };
    assert(body =~= v@.skip(start as int));
    if start >= n {
        return None;
    }
    let cap: i128 = 0x1_0000_0000_0000_0000;
    let mut acc: i128 = 0;
    let mut k: usize = start;
    while k < n
        invariant
            v@ == s@,
            n == v@.len(),
            start <= k <= n,
            body == v@.skip(start as int),
            body == (if s@.len() > 0 && (s@[0] == '-' || s@[0] == '+') { s@.drop_first() } else { s@ }),
            cap == 0x1_0000_0000_0000_0000,
            all_digits(v@.subrange(start as int, k as int)),
            acc == (if digits_value(v@.subrange(start as int, k as int)) < cap {
                digits_value(v@.subrange(start as int, k as int))
            } else {
                cap as int
            }),
        decreases n - k,
    {
        let c = v[k];
        if !('0' <= c && c <= '9') {
            assert(body[k - start] == c);
            assert(!is_digit(body[k - start]));
            assert(!all_digits(body));
            return None;
        }
        let d = (c as u32 - '0' as u32) as i128;
        proof {
            let pre = v@.subrange(start as int, k as int);
            let nxt = v@.subrange(start as int, k + 1);
            assert(nxt.drop_last() =~= pre);
            assert(nxt.last() == c);
            lemma_digits_value_nonneg(pre);
            lemma_capped_step(digits_value(pre), d as int, cap as int);
            assert(all_digits(nxt)) by {
                assert forall|i: int| 0 <= i < nxt.len() implies is_digit(#[trigger] nxt[i]) by {
                    if i < pre.len() {
                        assert(nxt[i] == pre[i]);
                    }
                }
            }
        }
        let next = acc * 10 + d;
        acc = if next < cap { next } else { cap };
        k = k + 1;
    }
    assert(v@.subrange(start as int, n as int) =~= body);
    proof {
        lemma_digits_value_nonneg(body);
    }
    if acc >= cap {
        return None;
    }
    let value: i128 = if neg { -acc } else { acc };
    if value < -0x8000_0000_0000_0000 || value > 0x7fff_ffff_ffff_ffff {
        None
    } else {
        Some(value as i64)
    }
}

/// Appends the decimal digits of `m` to `s`.
fn push_digits(s: &mut String, m: u64)
    ensures
        final(s)@ == old(s)@ + digits_of(m as nat),
    decreases m,
{
    if m >= 10 {
        push_digits(s, m / 10);
    }
    let d = (m % 10) as u8;
    let c = (d + 48) as char;
    assert(c == digit_char((m % 10) as int));
    push_char(s, c);
    proof {
        if m >= 10 {
            assert(digits_of(m as nat) == digits_of((m / 10) as nat).push(digit_char((m % 10) as int)));
        } else {
            assert(digits_of(m as nat) =~= seq![digit_char(m as int)]);
        }
    }
}

/// The decimal form of `n`, as `format!("{}", n)` writes it.
pub fn decimal_text(n: i64) -> (s: String)
    ensures
        s@ == decimal(n as int),
{
    let mut s = String::new();
    if n < 0 {
        push_char(&mut s, '-');
        let m: u64 = if n == i64::MIN { 0x8000_0000_0000_0000 } else { (-n) as u64 };
        push_digits(&mut s, m);
    } else {
        push_digits(&mut s, n as u64);
    }
    assert(s@ =~= decimal(n as int));
    s
}

/// The decimal form of the unsigned `n`.
pub fn decimal_u64_text(n: u64) -> (s: String)
    ensures
        s@ == digits_of(n as nat),
{
    let mut s = String::new();
    push_digits(&mut s, n);
    assert(s@ =~= digits_of(n as nat));
    s
}

/// ASCII lower case of `c`; other characters are left as they are.
pub open spec fn ascii_lower(c: char) -> char {
    if 'A' <= c <= 'Z' { ((c as u32) + 32) as char } else { c }
}

/// Whether `a` and `b` are equal when ASCII letters are compared without
/// regard to case, as `str::eq_ignore_ascii_case` tests.
pub open spec fn eq_ignore_case_spec(a: Seq<char>, b: Seq<char>) -> bool {
    a.len() == b.len() && forall|i: int| 0 <= i < a.len() ==> ascii_lower(a[i]) == ascii_lower(b[i])
}

fn lower_char(c: char) -> (r: char)
    ensures
        r == ascii_lower(c),
{
    if 'A' <= c && c <= 'Z' {
        ((c as u8) + 32) as char
    } else {
        c
    }
}

/// Exec counterpart of `eq_ignore_case_spec`.
pub fn eq_ignore_case(a: &str, b: &str) -> (r: bool)
    ensures
        r == eq_ignore_case_spec(a@, b@),
{
    let va = chars_of(a);
    let vb = chars_of(b);
    if va.len() != vb.len() {
        return false;
    }
    let mut i: usize = 0;
    while i < va.len()
        invariant
            va@ == a@,
            vb@ == b@,
            va@.len() == vb@.len(),
            i <= va@.len(),
            forall|j: int| 0 <= j < i ==> ascii_lower(va@[j]) == ascii_lower(vb@[j]),
        decreases va@.len() - i,
    {
        if lower_char(va[i]) != lower_char(vb[i]) {
            return false;
        }
        i = i + 1;
    }
    true
}

/// The digits of `m` are decimal digits spelling `m`.
pub proof fn lemma_digits_of(m: nat)
    ensures
        digits_of(m).len() >= 1,
        all_digits(digits_of(m)),
        digits_value(digits_of(m)) == m,
    decreases m,
{
    let d = (m % 10) as int;
    assert(digit_value(digit_char(d)) == d);
    if m >= 10 {
        lemma_digits_of(m / 10);
        let s = digits_of(m / 10);
        let t = s.push(digit_char(d));
        assert(t.drop_last() =~= s);
        vstd::arithmetic::div_mod::lemma_fundamental_div_mod(m as int, 10);
        assert((m / 10) * 10 == 10 * (m / 10)) by (nonlinear_arith);
        assert(digits_value(t) == digits_value(s) * 10 + digit_value(t.last()));
        assert(t.last() == digit_char(d));
        assert(digits_value(t) == m);
        assert(digits_of(m) == t);
        assert forall|i: int| 0 <= i < t.len() implies is_digit(#[trigger] t[i]) by {
            if i < s.len() {
                assert(t[i] == s[i]);
            }
        }
    } else {
        assert(digits_of(m) =~= seq![digit_char(m as int)]);
        let u = seq![digit_char(m as int)];
        assert(u.drop_last() =~= Seq::<char>::empty());
        assert(digits_value(u.drop_last()) == 0);
        assert(u.last() == digit_char(d));
        assert(digits_value(u) == m);
    }
}

/// Reading the decimal form of a number gives the number back.
pub proof fn lemma_decimal_roundtrip(n: int)
    ensures
        parse_int_spec(decimal(n)) == Some(n),
{
    if n < 0 {
        let m = (-n) as nat;
        lemma_digits_of(m);
        let s = seq!['-'] + digits_of(m);
        assert(s.drop_first() =~= digits_of(m));
        assert(s[0] == '-');
    } else {
        lemma_digits_of(n as nat);
        let s = digits_of(n as nat);
        assert(is_digit(s[0]));
    }
}

} // verus!
