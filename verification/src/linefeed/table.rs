//! Formats strings into a table of rows and columns.
use vstd::prelude::*;

verus! {

/// Space between columns.
pub const COL_SPACE: usize = 2;

/// The column of the `i`th of `n` strings in a table of `n_cols` columns.
pub open spec fn column_of(i: nat, n: nat, n_cols: nat, horizontal: bool) -> nat {
    if horizontal {
        i % n_cols
    } else {
        i / ((n + (n_cols - 1)) / n_cols as int) as nat
    }
}

/// Width that the `i`th string claims in its column: its length, plus the
/// spacing unless it is in the last column.
pub open spec fn claimed(lens: Seq<nat>, i: nat, n_cols: nat, horizontal: bool) -> nat {
    if column_of(i, lens.len(), n_cols, horizontal) == n_cols - 1 {
        lens[i as int]
    } else {
        (lens[i as int] + COL_SPACE) as nat
    }
}

/// Column widths for the first `k` strings laid out in `n_cols` columns.
pub open spec fn widths(lens: Seq<nat>, k: nat, n_cols: nat, horizontal: bool) -> Seq<nat>
    decreases k,
{
    if k == 0 {
        Seq::new(n_cols, |_c: int| 0nat)
    } else {
        let w = widths(lens, (k - 1) as nat, n_cols, horizontal);
        let c = column_of((k - 1) as nat, lens.len(), n_cols, horizontal) as int;
        let x = claimed(lens, (k - 1) as nat, n_cols, horizontal);
        if x > w[c] {
            w.update(c, x)
        } else {
            w
        }
    }
}

/// Sum of a sequence of widths.
pub open spec fn total(w: Seq<nat>) -> nat
    decreases w.len(),
{
    if w.len() == 0 {
        0
    } else {
        total(w.drop_last()) + w.last()
    }
}

/// Trying column counts from `n` down to `lo`, the widths of the first
/// layout that fits in `screen_width`.
pub open spec fn first_fit(lens: Seq<nat>, n: nat, lo: nat, screen_width: nat, horizontal: bool) -> Option<
    Seq<nat>,
>
    decreases n,
{
    if n < lo || n == 0 {
        None
    } else {
        let w = widths(lens, lens.len(), n, horizontal);
        if total(w) <= screen_width {
            Some(w)
        } else {
            first_fit(lens, (n - 1) as nat, lo, screen_width, horizontal)
        }
    }
}

/// The smallest of `lens`, or `usize::MAX` for none.
pub open spec fn min_len(lens: Seq<nat>) -> nat
    decreases lens.len(),
{
    if lens.len() == 0 {
        usize::MAX as nat
    } else {
        let m = min_len(lens.drop_last());
        if lens.last() < m {
            lens.last()
        } else {
            m
        }
    }
}

/// The largest of `lens`, plus the spacing, or `0` for none.
pub open spec fn max_len(lens: Seq<nat>) -> nat
    decreases lens.len(),
{
    if lens.len() == 0 {
        0
    } else {
        let m = max_len(lens.drop_last());
        if lens.last() + COL_SPACE > m {
            (lens.last() + COL_SPACE) as nat
        } else {
            m
        }
    }
}

/// The lengths, in characters, of `strs`.
pub open spec fn lens_of(strs: Seq<&str>) -> Seq<nat> {
    strs.map_values(|s: &str| s@.len())
}

/// Column sizes for `lens` fitting in `screen_width`, as `format_columns`
/// computes them.
pub open spec fn column_sizes(lens: Seq<nat>, screen_width: nat, horizontal: bool) -> Option<
    Seq<nat>,
> {
    if lens.len() == 0 {
        None
    } else {
        let mn = if min_len(lens) == 0 {
            1
        } else {
            min_len(lens)
        };
        let mx = if max_len(lens) == 0 {
            1
        } else {
            max_len(lens)
        };
        let min_cols0 = if lens.len() < screen_width / mx {
            lens.len()
        } else {
            screen_width / mx
        };
        let max_cols = if lens.len() < screen_width / mn {
            lens.len()
        } else {
            screen_width / mn
        };
        let min_cols = if min_cols0 <= 1 {
            2
        } else {
            min_cols0
        };
        if max_cols <= 1 {
            None
        } else if min_cols == max_cols {
            first_fit(lens, max_cols, max_cols, screen_width, horizontal)
        } else {
            first_fit(lens, max_cols, min_cols, screen_width, horizontal)
        }
    }
}

/// Character count of `s`.
fn char_count(s: &str) -> (n: usize)
    ensures
        n == s@.len(),
{
    let v = crate::text::chars_of(s);
    v.len()
}

/// The smallest length and the largest length plus spacing.
fn min_max(strs: &[&str]) -> (r: (usize, usize))
    requires
        forall|i: int| 0 <= i < strs@.len() ==> strs@[i]@.len() + COL_SPACE <= usize::MAX,
    ensures
        r.0 == min_len(lens_of(strs@)),
        r.1 == max_len(lens_of(strs@)),
{
    let mut min: usize = usize::MAX;
    let mut max: usize = 0;
    let mut i: usize = 0;
    while i < strs.len()
        invariant
            i <= strs@.len(),
            forall|i: int| 0 <= i < strs@.len() ==> strs@[i]@.len() + COL_SPACE <= usize::MAX,
            min == min_len(lens_of(strs@).take(i as int)),
            max == max_len(lens_of(strs@).take(i as int)),
        decreases strs@.len() - i,
    {
        let n = char_count(strs[i]);
        proof {
            assert(lens_of(strs@).take(i + 1).drop_last() =~= lens_of(strs@).take(i as int));
            assert(lens_of(strs@).take(i + 1).last() == n);
        }
        if n < min {
            min = n;
        }
        if n + COL_SPACE > max {
            max = n + COL_SPACE;
        }
        i = i + 1;
    }
    proof {
        assert(lens_of(strs@).take(i as int) =~= lens_of(strs@));
    }
    (min, max)
}

/// The column of string `i` of `n` in `n_cols` columns, in bounds.
proof fn lemma_column_of(i: nat, n: nat, n_cols: nat, horizontal: bool)
    requires
        i < n,
        1 <= n_cols <= n,
    ensures
        column_of(i, n, n_cols, horizontal) < n_cols,
{
    if !horizontal {
        let per = (n + (n_cols - 1)) / n_cols as int;
        assert(per >= 1) by (nonlinear_arith)
            requires
                per == (n + (n_cols - 1)) / n_cols as int,
                1 <= n_cols <= n,
        ;
        assert(per * n_cols >= n) by (nonlinear_arith)
            requires
                per == (n + (n_cols - 1)) / n_cols as int,
                1 <= n_cols,
        ;
        assert((i as int) / per < n_cols) by (nonlinear_arith)
            requires
                per >= 1,
                per * n_cols >= n,
                i < n,
        ;
    }
}

/// Column widths for all strings in `n_cols` columns.
fn layout(lens: &Vec<usize>, n_cols: usize, horizontal: bool) -> (w: Vec<usize>)
    requires
        1 <= n_cols <= lens@.len(),
        lens@.len() <= usize::MAX / 2,
        forall|i: int| 0 <= i < lens@.len() ==> lens@[i] + COL_SPACE <= usize::MAX,
    ensures
        w@.len() == n_cols,
        forall|c: int|
            0 <= c < n_cols ==> w@[c] == widths(
                lens@.map_values(|x: usize| x as nat),
                lens@.len(),
                n_cols as nat,
                horizontal,
            )[c],
{
    let ghost ln = lens@.map_values(|x: usize| x as nat);
    let n = lens.len();
    let mut w: Vec<usize> = Vec::new();
    let mut c: usize = 0;
    while c < n_cols
        invariant
            c <= n_cols,
            w@.len() == c,
            forall|j: int| 0 <= j < c ==> w@[j] == 0,
        decreases n_cols - c,
    {
        w.push(0);
        c = c + 1;
    }
    let per_col = (n + (n_cols - 1)) / n_cols;
    proof {
        assert(per_col >= 1) by (nonlinear_arith)
            requires
                per_col == (n + (n_cols - 1)) / n_cols as int,
                1 <= n_cols <= n,
        ;
    }
    let mut i: usize = 0;
    while i < n
        invariant
            ln == lens@.map_values(|x: usize| x as nat),
            n == lens@.len(),
            1 <= n_cols <= n,
            n <= usize::MAX / 2,
            per_col == (n + (n_cols - 1)) / n_cols as int,
            per_col >= 1,
            forall|i: int| 0 <= i < lens@.len() ==> lens@[i] + COL_SPACE <= usize::MAX,
            i <= n,
            w@.len() == n_cols,
            forall|c: int| 0 <= c < n_cols ==> w@[c] == widths(ln, i as nat, n_cols as nat, horizontal)[c],
        decreases n - i,
    {
        proof {
            lemma_column_of(i as nat, n as nat, n_cols as nat, horizontal);
            lemma_widths_len(ln, i as nat, n_cols as nat, horizontal);
        }
        let col = if horizontal {
            i % n_cols
        } else {
            i / per_col
        };
        let len = lens[i];
        let real_len = if col == n_cols - 1 {
            len
        } else {
            len + COL_SPACE
        };
        if real_len > w[col] {
            w.set(col, real_len);
        }
        i = i + 1;
    }
    w
}

/// `widths` has one entry per column.
proof fn lemma_widths_len(lens: Seq<nat>, k: nat, n_cols: nat, horizontal: bool)
    requires
        k <= lens.len(),
        1 <= n_cols <= lens.len(),
    ensures
        widths(lens, k, n_cols, horizontal).len() == n_cols,
    decreases k,
{
    if k > 0 {
        lemma_widths_len(lens, (k - 1) as nat, n_cols, horizontal);
        lemma_column_of((k - 1) as nat, lens.len(), n_cols, horizontal);
    }
}

/// Whether the widths `w` add up to at most `limit`.
fn fits(w: &Vec<usize>, limit: usize) -> (b: bool)
    ensures
        b == (total(w@.map_values(|x: usize| x as nat)) <= limit),
{
    let ghost wn = w@.map_values(|x: usize| x as nat);
    let mut acc: usize = 0;
    let mut i: usize = 0;
    while i < w.len()
        invariant
            wn == w@.map_values(|x: usize| x as nat),
            i <= w@.len(),
            acc == total(wn.take(i as int)),
            acc <= limit,
        decreases w@.len() - i,
    {
        proof {
            assert(wn.take(i + 1).drop_last() =~= wn.take(i as int));
            lemma_total_mono(wn, i as int + 1);
        }
        if w[i] > limit - acc {
            proof {
                lemma_total_prefix(wn, i + 1);
            }
            return false;
        }
        acc = acc + w[i];
        i = i + 1;
    }
    proof {
        assert(wn.take(i as int) =~= wn);
    }
    true
}

/// A prefix of widths adds up to no more than the whole.
proof fn lemma_total_prefix(w: Seq<nat>, k: int)
    requires
        0 <= k <= w.len(),
    ensures
        total(w.take(k)) <= total(w),
    decreases w.len() - k,
{
    if k < w.len() {
        lemma_total_prefix(w, k + 1);
        assert(w.take(k + 1).drop_last() =~= w.take(k));
    } else {
        assert(w.take(k) =~= w);
    }
}

/// Unfolding `total` on a prefix.
proof fn lemma_total_mono(w: Seq<nat>, k: int)
    requires
        0 < k <= w.len(),
    ensures
        total(w.take(k)) == total(w.take(k - 1)) + w[k - 1],
{
    assert(w.take(k).drop_last() =~= w.take(k - 1));
}

/// Formats a series of strings into columns, fitting within a given screen
/// width. Returns the size of each resulting column, including spacing.
///
/// If the strings cannot be formatted into columns (e.g. one or more strings
/// are longer than the screen width) or the result would be only one column,
/// `None` is returned.
pub fn format_columns(strs: &[&str], screen_width: usize, horizontal: bool) -> (r: Option<
    Vec<usize>,
>)
    requires
        strs@.len() <= usize::MAX / 2,
        forall|i: int| 0 <= i < strs@.len() ==> strs@[i]@.len() + COL_SPACE <= usize::MAX,
    ensures
        match column_sizes(lens_of(strs@), screen_width as nat, horizontal) {
            Some(w) => r matches Some(v) && v@.map_values(|x: usize| x as nat) == w,
            None => r is None,
        },
{
    let ghost ln = lens_of(strs@);
    if strs.len() == 0 {
        return None;
    }
    let n_strs = strs.len();
    let (mut min_len, mut max_len) = min_max(strs);
    if min_len == 0 {
        min_len = 1;
    }
    if max_len == 0 {
        max_len = 1;
    }
    let mut min_cols = if n_strs < screen_width / max_len {
        n_strs
    } else {
        screen_width / max_len
    };
    let max_cols = if n_strs < screen_width / min_len {
        n_strs
    } else {
        screen_width / min_len
    };
    if min_cols <= 1 {
        min_cols = 2;
    }
    if max_cols <= 1 {
        return None;
    }
    let mut lens: Vec<usize> = Vec::new();
    let mut i: usize = 0;
    while i < n_strs
        invariant
            n_strs == strs@.len(),
            i <= n_strs,
            lens@.len() == i,
            forall|j: int| 0 <= j < i ==> lens@[j] == strs@[j]@.len(),
        decreases n_strs - i,
    {
        lens.push(char_count(strs[i]));
        i = i + 1;
    }
    proof {
        assert(lens@.map_values(|x: usize| x as nat) =~= ln);
    }
    let lo = if min_cols == max_cols {
        max_cols
    } else {
        min_cols
    };
    let mut n = max_cols;
    while n >= lo && n > 0
        invariant
            ln == lens_of(strs@),
            lens@.map_values(|x: usize| x as nat) == ln,
            lens@.len() == n_strs == strs@.len(),
            forall|j: int| 0 <= j < n_strs ==> lens@[j] == strs@[j]@.len(),
            n_strs <= usize::MAX / 2,
            forall|i: int| 0 <= i < strs@.len() ==> strs@[i]@.len() + COL_SPACE <= usize::MAX,
            n <= max_cols <= n_strs,
            column_sizes(ln, screen_width as nat, horizontal) == first_fit(
                ln,
                n as nat,
                lo as nat,
                screen_width as nat,
                horizontal,
            ),
        decreases n,
    {
        let w = layout(&lens, n, horizontal);
        proof {
            lemma_widths_len(ln, ln.len(), n as nat, horizontal);
            assert(w@.map_values(|x: usize| x as nat) =~= widths(
                ln,
                ln.len(),
                n as nat,
                horizontal,
            ));
        }
        if fits(&w, screen_width) {
            return Some(w);
        }
        n = n - 1;
    }
    None
}

/// Represents a table of strings, formatted into rows and columns
///
/// A `Table` yields `Line` elements, which in turn yield `(usize, &str)`
/// elements, describing the width and content of each cell in a given row.
pub struct Table<'a> {
    strings: &'a [&'a str],
    sizes: Option<&'a [usize]>,
    offset: usize,
    per_col: usize,
    rows: usize,
    horizontal: bool,
}

/// Number of columns given the column sizes.
pub open spec fn cols_of(sizes: Option<&[usize]>) -> nat {
    match sizes {
        Some(sz) => if sz@.len() == 0 {
            1
        } else {
            sz@.len()
        },
        None => 1,
    }
}

/// `ceil(n / d)`.
pub open spec fn ceil_div(n: nat, d: nat) -> nat {
    ((n + (d - 1)) / d as int) as nat
}

/// Line `r` of a table of `len` strings in `n` columns of `p` rows: the
/// range of the strings it takes and the distance between its cells.
/// Horizontally it takes the `n` strings from `r * n` on, one after the
/// other; vertically every `p`-th string from `r` on.
pub open spec fn line_bounds(len: int, n: int, p: int, horizontal: bool, r: int) -> (int, int, int) {
    let start = if horizontal { r * n } else { r };
    let span = if horizontal { n } else { p * n };
    let end = if len < start + span { len } else { start + span };
    (start, end, if horizontal { 1 } else { p })
}

/// Whether line `r` has a `j`-th cell.
pub open spec fn has_cell(len: int, n: int, p: int, horizontal: bool, r: int, j: int) -> bool {
    let (start, end, stride) = line_bounds(len, n, p, horizontal, r);
    0 <= r < p && 0 <= j && j * stride < end - start
}

/// The index among the strings of the `j`-th cell of line `r`.
pub open spec fn cell_index(len: int, n: int, p: int, horizontal: bool, r: int, j: int) -> int {
    let (start, end, stride) = line_bounds(len, n, p, horizontal, r);
    start + j * stride
}

/// The line that holds string `i` of a table of `len` strings in `n`
/// columns.
pub open spec fn owner_line(len: int, n: int, horizontal: bool, i: int) -> int {
    if horizontal { i / n } else { i % ((len + (n - 1)) / n) }
}

/// The cell of its line that holds string `i`.
pub open spec fn owner_cell(len: int, n: int, horizontal: bool, i: int) -> int {
    if horizontal { i % n } else { i / ((len + (n - 1)) / n) }
}

/// The offset of a table of `rows` lines after a call of `next_line` at
/// offset `o`.
pub open spec fn next_offset(rows: nat, o: nat) -> nat {
    if o < rows {
        o + 1
    } else {
        o
    }
}

/// The offset of a table of `rows` lines after `k` calls of `next_line`.
pub open spec fn offset_after(rows: nat, k: nat) -> nat
    decreases k,
{
    if k == 0 {
        0
    } else {
        next_offset(rows, offset_after(rows, (k - 1) as nat))
    }
}

/// A table of `rows` lines gives a line on each of its first `rows` calls
/// of `next_line` and nothing after: after `k` calls its offset is the
/// smaller of `k` and `rows`, so `has_more` holds exactly while `k < rows`.
pub proof fn lemma_table_run(rows: nat, k: nat)
    ensures
        offset_after(rows, k) == if k < rows { k } else { rows },
        (offset_after(rows, k) < rows) == (k < rows),
    decreases k,
{
    if k > 0 {
        lemma_table_run(rows, (k - 1) as nat);
    }
}

/// Every string of a table of `len` strings in `n` columns lies in exactly
/// one cell: horizontally in line `i / n`, cell `i % n`; vertically in line
/// `i % p`, cell `i / p`, where `p` is the number of rows.
pub proof fn lemma_table_cells(len: int, n: int, horizontal: bool)
    requires
        len >= 0,
        n >= 1,
    ensures
        ({
            let p = (len + (n - 1)) / n;
            &&& forall|i: int|
                0 <= i < len ==> has_cell(len, n, p, horizontal, #[trigger] owner_line(len, n, horizontal, i), owner_cell(len, n, horizontal, i))
                    && cell_index(len, n, p, horizontal, owner_line(len, n, horizontal, i), owner_cell(len, n, horizontal, i)) == i
            &&& forall|r: int, j: int, r2: int, j2: int|
                #[trigger] has_cell(len, n, p, horizontal, r, j) && #[trigger] has_cell(len, n, p, horizontal, r2, j2)
                    && cell_index(len, n, p, horizontal, r, j) == cell_index(len, n, p, horizontal, r2, j2) ==> r == r2
                    && j == j2
            &&& forall|r: int, j: int|
                #[trigger] has_cell(len, n, p, horizontal, r, j) ==> 0 <= cell_index(len, n, p, horizontal, r, j) < len
        }),
{
    let p = (len + (n - 1)) / n;
    assert(p * n >= len && (p - 1) * n < len && p >= 0) by (nonlinear_arith)
        requires
            p == (len + (n - 1)) / n,
            n >= 1,
            len >= 0,
    ;
    assert forall|i: int| 0 <= i < len implies has_cell(len, n, p, horizontal, #[trigger] owner_line(len, n, horizontal, i), owner_cell(len, n, horizontal, i))
        && cell_index(len, n, p, horizontal, owner_line(len, n, horizontal, i), owner_cell(len, n, horizontal, i)) == i by {
        if horizontal {
            let r = i / n;
            let j = i % n;
            assert(i == r * n + j && 0 <= j < n && r >= 0) by (nonlinear_arith)
                requires
                    r == i / n,
                    j == i % n,
                    n >= 1,
                    i >= 0,
            ;
            assert(r < p) by (nonlinear_arith)
                requires
                    i == r * n + j,
                    0 <= j,
                    i < len,
                    p * n >= len,
                    n >= 1,
            ;
        } else {
            assert(p >= 1) by (nonlinear_arith)
                requires
                    p * n >= len,
                    len > 0,
                    n >= 1,
                    p >= 0,
            ;
            let r = i % p;
            let j = i / p;
            assert(i == j * p + r && 0 <= r < p && j >= 0) by (nonlinear_arith)
                requires
                    r == i % p,
                    j == i / p,
                    p >= 1,
                    i >= 0,
            ;
            assert(j * p < p * n) by (nonlinear_arith)
                requires
                    i == j * p + r,
                    0 <= r,
                    i < len,
                    p * n >= len,
            ;
        }
    }
    assert forall|r: int, j: int, r2: int, j2: int|
        #[trigger] has_cell(len, n, p, horizontal, r, j) && #[trigger] has_cell(len, n, p, horizontal, r2, j2)
            && cell_index(len, n, p, horizontal, r, j) == cell_index(len, n, p, horizontal, r2, j2) implies r == r2
            && j == j2 by {
        let x = cell_index(len, n, p, horizontal, r, j);
        if horizontal {
            assert(j * 1 == j && j2 * 1 == j2);
            assert(0 <= j < n && 0 <= j2 < n);
            assert(x == r2 * n + j2);
            vstd::arithmetic::div_mod::lemma_fundamental_div_mod_converse(x, n, r, j);
            vstd::arithmetic::div_mod::lemma_fundamental_div_mod_converse(x, n, r2, j2);
        } else {
            assert(j < n && j2 < n) by (nonlinear_arith)
                requires
                    j * p < p * n,
                    j2 * p < p * n,
                    p >= 1,
            ;
            vstd::arithmetic::div_mod::lemma_fundamental_div_mod_converse(x, p, j, r);
            vstd::arithmetic::div_mod::lemma_fundamental_div_mod_converse(x, p, j2, r2);
        }
    }
}

impl<'a> Table<'a> {
    /// The strings of the table.
    pub closed spec fn strings(&self) -> Seq<&'a str> {
        self.strings@
    }

    /// The number of rows.
    pub closed spec fn rows(&self) -> nat {
        self.rows as nat
    }

    /// The number of rows already yielded.
    pub closed spec fn offset(&self) -> nat {
        self.offset as nat
    }

    /// The number of columns.
    pub closed spec fn num_cols_spec(&self) -> nat {
        cols_of(self.sizes)
    }

    /// The number of strings per column (vertical layout).
    pub closed spec fn per_col(&self) -> nat {
        self.per_col as nat
    }

    /// Whether items are listed horizontally first.
    pub closed spec fn horizontal(&self) -> bool {
        self.horizontal
    }

    /// The column sizes, if given.
    pub closed spec fn sizes(&self) -> Option<&'a [usize]> {
        match self.sizes {
            Some(sz) => if sz@.len() == 0 {
                None
            } else {
                Some(sz)
            },
            None => None,
        }
    }

    /// The table's counters agree with its strings.
    pub closed spec fn wf(&self) -> bool {
        let n = self.strings@.len();
        let c = cols_of(self.sizes);
        &&& n <= usize::MAX / 4
        &&& n + c - 1 <= usize::MAX
        &&& self.rows == ceil_div(n, c)
        &&& self.per_col == ceil_div(n, c)
        &&& self.offset <= self.rows
        &&& (self.sizes matches Some(sz) ==> sz@.len() > 0)
    }

    /// Constructs a new table from the given set of strings, using the given
    /// column sizes.
    ///
    /// If `horizontal` is `true`, items will be listed horizontally first.
    pub fn new(strs: &'a [&'a str], sizes: Option<&'a [usize]>, horizontal: bool) -> (t: Table<'a>)
        requires
            strs@.len() <= usize::MAX / 4,
            strs@.len() + cols_of(sizes) - 1 <= usize::MAX,
        ensures
            t.wf(),
            t.strings() == strs@,
            t.sizes() == (match sizes {
                Some(sz) => if sz@.len() == 0 {
                    None
                } else {
                    Some(sz)
                },
                None => None,
            }),
            t.horizontal() == horizontal,
            t.offset() == 0,
            t.num_cols_spec() == cols_of(sizes),
            t.rows() == ceil_div(strs@.len(), cols_of(sizes)),
    {
        let mut sizes = sizes;
        if let Some(sz) = sizes {
            if sz.len() == 0 {
                sizes = None;
            }
        }
        let n_strs = strs.len();
        let n_cols = match sizes {
            Some(sz) => sz.len(),
            None => 1,
        };
        let extra: usize = if n_strs % n_cols != 0 {
            1
        } else {
            0
        };
        let rows = n_strs / n_cols + extra;
        let per_col = (n_strs + (n_cols - 1)) / n_cols;
        proof {
            assert(rows == per_col) by (nonlinear_arith)
                requires
                    n_cols >= 1,
                    rows == (n_strs as int) / (n_cols as int) + extra,
                    extra == (if (n_strs as int) % (n_cols as int) != 0 {
                        1int
                    } else {
                        0int
                    }),
                    per_col == (n_strs + (n_cols - 1)) / (n_cols as int),
            ;
        }
        Table { strings: strs, sizes, offset: 0, per_col, rows, horizontal }
    }

    /// Returns whether more lines are present in the table.
    pub fn has_more(&self) -> (b: bool)
        ensures
            b == (self.offset() < self.rows()),
    {
        self.offset < self.rows
    }

    fn num_cols(&self) -> (n: usize)
        requires
            self.wf(),
        ensures
            n == self.num_cols_spec(),
    {
        match self.sizes {
            Some(sz) => sz.len(),
            None => 1,
        }
    }

    /// Returns the next line of the table, if any.
    #[verifier::rlimit(40)]
    pub fn next_line(&mut self) -> (r: Option<Line<'a>>)
        requires
            old(self).wf(),
        ensures
            final(self).wf(),
            final(self).strings() == old(self).strings(),
            final(self).rows() == old(self).rows(),
            final(self).sizes() == old(self).sizes(),
            final(self).horizontal() == old(self).horizontal(),
            final(self).num_cols_spec() == old(self).num_cols_spec(),
            final(self).per_col() == old(self).per_col(),
            (r is Some) == (old(self).offset() < old(self).rows()),
            old(self).offset() == old(self).rows() ==> r is None && final(self).offset() == old(
                self,
            ).offset(),
            old(self).offset() < old(self).rows() ==> final(self).offset() == old(self).offset() + 1,
            old(self).offset() < old(self).rows() ==> (r matches Some(line) && line.wf() && line.offset() == 0 && line.sizes()
                == old(self).sizes() && ({
                let n = old(self).num_cols_spec();
                let len = old(self).strings().len();
                let start = if old(self).horizontal() {
                    old(self).offset() * n
                } else {
                    old(self).offset()
                };
                let span = if old(self).horizontal() {
                    n
                } else {
                    old(self).per_col() * n
                };
                let end = if len < start + span {
                    len
                } else {
                    start + span
                };
                &&& line.strings() == old(self).strings().subrange(start as int, end as int)
                &&& line.stride() == if old(self).horizontal() {
                    1
                } else {
                    old(self).per_col()
                }
            })),
            final(self).offset() == next_offset(old(self).rows(), old(self).offset()),
            old(self).offset() < old(self).rows() ==> (r matches Some(line) && {
                let b = line_bounds(
                    old(self).strings().len() as int,
                    old(self).num_cols_spec() as int,
                    old(self).rows() as int,
                    old(self).horizontal(),
                    old(self).offset() as int,
                );
                &&& line.strings() == old(self).strings().subrange(b.0, b.1)
                &&& line.stride() == b.2
            }),
    {
        if self.offset == self.rows {
            return None;
        }
        let n = self.num_cols();
        let len = self.strings.len();
        proof {
            let o = self.offset as int;
            let r = self.rows as int;
            let nn = n as int;
            assert(o * nn < len) by (nonlinear_arith)
                requires
                    o < r,
                    r == (len + (nn - 1)) / nn,
                    nn >= 1,
            ;
            assert((o + 1) * nn <= len + nn - 1) by (nonlinear_arith)
                requires
                    o < r,
                    r == (len + (nn - 1)) / nn,
                    nn >= 1,
                    len >= 0,
            ;
            assert((o + 1) * nn == o * nn + nn) by (nonlinear_arith);
            let pc = self.per_col as int;
            if nn > len {
                assert(pc <= 1) by (nonlinear_arith)
                    requires
                        pc == (len + (nn - 1)) / nn,
                        nn > len,
                        len >= 0,
                ;
            } else {
                assert(pc <= len) by (nonlinear_arith)
                    requires
                        pc == (len + (nn - 1)) / nn,
                        1 <= nn <= len,
                ;
            }
            assert(self.per_col as int * nn <= len + nn) by (nonlinear_arith)
                requires
                    self.per_col as int == (len + (nn - 1)) / nn,
                    nn >= 1,
            ;
        }
        let (start, end, stride) = if self.horizontal {
            let start = self.offset * n;
            let end = if len < start + n {
                len
            } else {
                start + n
            };
            (start, end, 1)
        } else {
            let start = self.offset;
            let span = self.per_col * n;
            let end = if len < start + span {
                len
            } else {
                start + span
            };
            (start, end, self.per_col)
        };
        self.offset = self.offset + 1;
        proof {
            assert(stride <= len + 1) by (nonlinear_arith)
                requires
                    stride == 1 || stride == self.per_col,
                    self.per_col as int == (len + (n - 1)) / n as int,
                    n >= 1,
            ;
        }
        let line = Line { strings: &self.strings[start..end], sizes: self.sizes, stride, offset: 0 };
        proof {
            assert(line.strings@.len() <= len);
            assert(stride >= 1);
            assert(stride <= len + 1);
            assert(len <= usize::MAX / 4);
            assert(line.wf());
            assert(line.strings() == old(self).strings().subrange(start as int, end as int));
        }
        Some(line)
    }
}

impl<'a> Table<'a> {
    /// A well-formed table never runs past its last line.
    pub proof fn lemma_offset_within(&self)
        requires
            self.wf(),
        ensures
            self.offset() <= self.rows(),
    {
    }

    /// Each string of a table lies in exactly one cell of its lines: line
    /// `r < rows` of the table takes the strings of `line_bounds(.., r)`
    /// (see `next_line`), and those ranges hold every string once.
    pub proof fn lemma_each_string_once(&self)
        requires
            self.wf(),
        ensures
            ({
                let len = self.strings().len() as int;
                let n = self.num_cols_spec() as int;
                let p = self.rows() as int;
                let h = self.horizontal();
                &&& forall|i: int|
                    0 <= i < len ==> has_cell(len, n, p, h, #[trigger] owner_line(len, n, h, i), owner_cell(len, n, h, i))
                        && cell_index(len, n, p, h, owner_line(len, n, h, i), owner_cell(len, n, h, i)) == i
                &&& forall|r: int, j: int, r2: int, j2: int|
                    #[trigger] has_cell(len, n, p, h, r, j) && #[trigger] has_cell(len, n, p, h, r2, j2)
                        && cell_index(len, n, p, h, r, j) == cell_index(len, n, p, h, r2, j2) ==> r == r2 && j == j2
                &&& forall|r: int, j: int| #[trigger] has_cell(len, n, p, h, r, j) ==> 0 <= cell_index(len, n, p, h, r, j) < len
            }),
    {
        lemma_table_cells(self.strings().len() as int, self.num_cols_spec() as int, self.horizontal());
    }

    /// The lines that are left, in order: calls `next_line` until it gives
    /// nothing. The `k`-th line is line `offset + k` of the table (see
    /// `line_bounds`), and afterwards the table has no more lines.
    pub fn remaining_lines(&mut self) -> (v: Vec<Line<'a>>)
        requires
            old(self).wf(),
        ensures
            final(self).wf(),
            final(self).strings() == old(self).strings(),
            final(self).rows() == old(self).rows(),
            final(self).offset() == final(self).rows(),
            v@.len() == old(self).rows() - old(self).offset(),
            forall|k: int| 0 <= k < v@.len() ==> {
                let b = line_bounds(
                    old(self).strings().len() as int,
                    old(self).num_cols_spec() as int,
                    old(self).rows() as int,
                    old(self).horizontal(),
                    old(self).offset() + k,
                );
                &&& (#[trigger] v@[k]).wf()
                &&& v@[k].offset() == 0
                &&& v@[k].strings() == old(self).strings().subrange(b.0, b.1)
                &&& v@[k].stride() == b.2
            },
    {
        let ghost t0 = *self;
        let mut v: Vec<Line<'a>> = Vec::new();
        loop
            invariant_except_break
                self.wf(),
                self.strings() == t0.strings(),
                self.rows() == t0.rows(),
                self.horizontal() == t0.horizontal(),
                self.num_cols_spec() == t0.num_cols_spec(),
                t0.wf(),
                self.offset() == t0.offset() + v@.len(),
                forall|k: int| 0 <= k < v@.len() ==> {
                    let b = line_bounds(
                        t0.strings().len() as int,
                        t0.num_cols_spec() as int,
                        t0.rows() as int,
                        t0.horizontal(),
                        t0.offset() + k,
                    );
                    &&& (#[trigger] v@[k]).wf()
                    &&& v@[k].offset() == 0
                    &&& v@[k].strings() == t0.strings().subrange(b.0, b.1)
                    &&& v@[k].stride() == b.2
                },
            ensures
                self.wf(),
                self.strings() == t0.strings(),
                self.rows() == t0.rows(),
                self.offset() == self.rows(),
                v@.len() == t0.rows() - t0.offset(),
                forall|k: int| 0 <= k < v@.len() ==> {
                    let b = line_bounds(
                        t0.strings().len() as int,
                        t0.num_cols_spec() as int,
                        t0.rows() as int,
                        t0.horizontal(),
                        t0.offset() + k,
                    );
                    &&& (#[trigger] v@[k]).wf()
                    &&& v@[k].offset() == 0
                    &&& v@[k].strings() == t0.strings().subrange(b.0, b.1)
                    &&& v@[k].stride() == b.2
                },
            decreases t0.rows() - self.offset(),
        {
            proof {
                self.lemma_offset_within();
            }
            match self.next_line() {
                Some(line) => {
                    v.push(line);
                },
                None => {
                    break;
                },
            }
        }
        v
    }
}

/// Represents a single line of the table
///
/// A `Line` yields `(usize, &str)` elements, describing the width and
/// content of each cell in a given row.
pub struct Line<'a> {
    strings: &'a [&'a str],
    sizes: Option<&'a [usize]>,
    stride: usize,
    offset: usize,
}

impl<'a> Line<'a> {
    /// The strings from the first cell of this line on.
    pub closed spec fn strings(&self) -> Seq<&'a str> {
        self.strings@
    }

    /// The column sizes, if given.
    pub closed spec fn sizes(&self) -> Option<&'a [usize]> {
        self.sizes
    }

    /// Distance between consecutive cells in `strings`.
    pub closed spec fn stride(&self) -> nat {
        self.stride as nat
    }

    /// Number of cells already yielded.
    pub closed spec fn offset(&self) -> nat {
        self.offset as nat
    }

    /// The counters stay within bounds.
    pub closed spec fn wf(&self) -> bool {
        &&& self.stride >= 1
        &&& self.strings@.len() + self.stride <= usize::MAX
        &&& self.offset * self.stride <= self.strings@.len() + self.stride
    }

    /// Returns the next cell of the line: its width (the column size when
    /// given, else its length in characters) and its text.
    pub fn next_cell(&mut self) -> (r: Option<(usize, &'a str)>)
        requires
            old(self).wf(),
        ensures
            final(self).wf(),
            final(self).strings() == old(self).strings(),
            final(self).sizes() == old(self).sizes(),
            final(self).stride() == old(self).stride(),
            ({
                let idx = old(self).offset() * old(self).stride();
                if idx < old(self).strings().len() {
                    &&& final(self).offset() == old(self).offset() + 1
                    &&& (r matches Some((w, s)) && s == old(self).strings()[idx as int] && w == (
                    match old(self).sizes() {
                        Some(sz) => if old(self).offset() < sz@.len() {
                            sz@[old(self).offset() as int] as nat
                        } else {
                            s@.len()
                        },
                        None => s@.len(),
                    }))
                } else {
                    r is None && final(self).offset() == old(self).offset()
                }
            }),
    {
        let idx = self.offset * self.stride;
        if idx >= self.strings.len() {
            return None;
        }
        let s = self.strings[idx];
        let width = match self.sizes {
            Some(sz) => if self.offset < sz.len() {
                sz[self.offset]
            } else {
                char_count(s)
            },
            None => char_count(s),
        };
        proof {
            assert((self.offset + 1) * self.stride == idx + self.stride) by (nonlinear_arith)
                requires
                    idx == self.offset * self.stride,
            ;
            assert(self.offset <= idx) by (nonlinear_arith)
                requires
                    idx == self.offset * self.stride,
                    self.stride >= 1,
            ;
        }
        self.offset = self.offset + 1;
        Some((width, s))
    }
}

/// The first layout that fits does fit, with a number of columns between
/// `lo` and `n`.
proof fn lemma_first_fit(lens: Seq<nat>, n: nat, lo: nat, screen_width: nat, horizontal: bool)
    requires
        n <= lens.len(),
        lo >= 1,
    ensures
        match first_fit(lens, n, lo, screen_width, horizontal) {
            Some(w) => total(w) <= screen_width && lo <= w.len() <= n,
            None => true,
        },
    decreases n,
{
    if !(n < lo || n == 0) {
        lemma_widths_len(lens, lens.len(), n, horizontal);
        if total(widths(lens, lens.len(), n, horizontal)) > screen_width {
            lemma_first_fit(lens, (n - 1) as nat, lo, screen_width, horizontal);
        }
    }
}

/// A table that `format_columns` lays out fits the screen: its column sizes
/// add up to no more than the screen width, and it has at least two
/// columns and no more columns than strings.
pub proof fn lemma_columns_fit(lens: Seq<nat>, screen_width: nat, horizontal: bool)
    ensures
        match column_sizes(lens, screen_width, horizontal) {
            Some(w) => total(w) <= screen_width && 2 <= w.len() <= lens.len(),
            None => true,
        },
{
    if lens.len() > 0 {
        let mn = if min_len(lens) == 0 { 1 } else { min_len(lens) };
        let mx = if max_len(lens) == 0 { 1 } else { max_len(lens) };
        let min_cols0 = if lens.len() < screen_width / mx { lens.len() } else { screen_width / mx };
        let max_cols = if lens.len() < screen_width / mn { lens.len() } else { screen_width / mn };
        let min_cols = if min_cols0 <= 1 { 2 } else { min_cols0 };
        if max_cols > 1 {
            if min_cols == max_cols {
                lemma_first_fit(lens, max_cols, max_cols, screen_width, horizontal);
            } else {
                lemma_first_fit(lens, max_cols, min_cols, screen_width, horizontal);
            }
        }
    }
}

} // verus!
