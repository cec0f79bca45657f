//! Arithmetic on the command line: `(1 + 2) * 3` and the like.
//!
//! A calculation is a sum of products of powers of numbers and
//! parenthesized calculations; `+` and `-` bind least, then `*` and `/`,
//! then `^`, which groups to the right. Spaces and tabs may stand between
//! the parts.
use vstd::prelude::*;

use crate::text::{chars_of, decimal, decimal_text, digits_of, is_digit, lemma_decimal_roundtrip, lemma_digits_of, parse_int_spec, string_of};

verus! {

/// A calculation as a tree: numbers, as written, at the leaves, and
/// operators (`+ - * / ^`) at the inner nodes.
pub enum CalcTree {
    Num(String),
    Op(char, Box<CalcTree>, Box<CalcTree>),
}

/// A calculation tree with its numbers as characters.
pub enum TreeView {
    Num(Seq<char>),
    Op(char, Box<TreeView>, Box<TreeView>),
}

impl View for CalcTree {
    type V = TreeView;

    open spec fn view(&self) -> TreeView
        decreases self,
    {
        match self {
            CalcTree::Num(s) => TreeView::Num(s@),
            CalcTree::Op(c, a, b) => TreeView::Op(*c, Box::new((**a).view()), Box::new((**b).view())),
        }
    }
}

/// `c` is a space or a tab.
pub open spec fn is_blank(c: char) -> bool {
    c == ' ' || c == '\t'
}

/// Index of the first character at or after `i` that is not a space or a
/// tab.
pub open spec fn blanks_end(s: Seq<char>, i: int) -> int
    decreases s.len() - i,
{
    if 0 <= i < s.len() && is_blank(s[i]) {
        blanks_end(s, i + 1)
    } else {
        i
    }
}

/// Skipping blanks moves forward, and not past the end.
pub proof fn lemma_blanks_end(s: Seq<char>, k: int)
    requires
        0 <= k <= s.len(),
    ensures
        k <= blanks_end(s, k) <= s.len(),
    decreases s.len() - k,
{
    if k < s.len() && is_blank(s[k]) {
        lemma_blanks_end(s, k + 1);
    }
}

/// Index of the first character at or after `i` that is not a digit.
pub open spec fn digits_end(s: Seq<char>, i: int) -> int
    decreases s.len() - i,
{
    if 0 <= i < s.len() && '0' <= s[i] <= '9' {
        digits_end(s, i + 1)
    } else {
        i
    }
}

/// End of an integer at `i`: an optional sign and at least one digit.
pub open spec fn int_end(s: Seq<char>, i: int) -> Option<int> {
    let j = if 0 <= i < s.len() && (s[i] == '+' || s[i] == '-') { i + 1 } else { i };
    let k = digits_end(s, j);
    if k > j { Some(k) } else { None }
}

/// End of a number at `i`: an integer, then optionally `.` and digits, then
/// optionally `e` or `E` and an integer.
pub open spec fn num_end(s: Seq<char>, i: int) -> Option<int> {
    match int_end(s, i) {
        None => None,
        Some(a) => {
            let b = if 0 <= a < s.len() && s[a] == '.' { digits_end(s, a + 1) } else { a };
            let c = if 0 <= b < s.len() && (s[b] == 'e' || s[b] == 'E') {
                match int_end(s, b + 1) {
                    Some(x) => x,
                    None => b,
                }
            } else {
                b
            };
            Some(c)
        },
    }
}

/// A term at `i`: a number, or a parenthesized sum.
pub open spec fn term_spec(s: Seq<char>, i: int) -> Option<(TreeView, int)>
    decreases s.len() - i, 0int,
{
    match num_end(s, i) {
        Some(e) => Some((TreeView::Num(s.subrange(i, e)), e)),
        None => if 0 <= i < s.len() && s[i] == '(' {
            proof {
                lemma_blanks_end(s, i + 1);
            }
            match sum_spec(s, blanks_end(s, i + 1)) {
                Some((t, e)) => {
                    let b = blanks_end(s, e);
                    if 0 <= b < s.len() && s[b] == ')' { Some((t, b + 1)) } else { None }
                },
                None => None,
            }
        } else {
            None
        },
    }
}

/// A power at `i`: a term, raised to a power if `^` follows.
pub open spec fn power_spec(s: Seq<char>, i: int) -> Option<(TreeView, int)>
    decreases s.len() - i, 1int,
{
    match term_spec(s, i) {
        None => None,
        Some((t, e)) => {
            let a = blanks_end(s, e);
            if 0 <= i < e <= a < s.len() && s[a] == '^' {
                proof {
                    lemma_blanks_end(s, a + 1);
                }
                match power_spec(s, blanks_end(s, a + 1)) {
                    Some((u, f)) => Some((TreeView::Op('^', Box::new(t), Box::new(u)), f)),
                    None => Some((t, e)),
                }
            } else {
                Some((t, e))
            }
        },
    }
}

/// More factors after a product `acc` that ends at `j`.
pub open spec fn product_rest(s: Seq<char>, acc: TreeView, j: int) -> Option<(TreeView, int)>
    decreases s.len() - j, 2int,
{
    let a = blanks_end(s, j);
    if 0 <= j <= a < s.len() && (s[a] == '*' || s[a] == '/') {
        proof {
            lemma_blanks_end(s, a + 1);
        }
        match power_spec(s, blanks_end(s, a + 1)) {
            Some((u, f)) => if j < f <= s.len() {
                product_rest(s, TreeView::Op(s[a], Box::new(acc), Box::new(u)), f)
            } else {
                None
            },
            None => Some((acc, j)),
        }
    } else {
        Some((acc, j))
    }
}

/// A product at `i`: powers joined by `*` and `/`, grouped to the left.
pub open spec fn product_spec(s: Seq<char>, i: int) -> Option<(TreeView, int)>
    decreases s.len() - i, 3int,
{
    match power_spec(s, i) {
        None => None,
        Some((t, e)) => if i < e <= s.len() { product_rest(s, t, e) } else { None },
    }
}

/// More terms after a sum `acc` that ends at `j`.
pub open spec fn sum_rest(s: Seq<char>, acc: TreeView, j: int) -> Option<(TreeView, int)>
    decreases s.len() - j, 4int,
{
    let a = blanks_end(s, j);
    if 0 <= j <= a < s.len() && (s[a] == '+' || s[a] == '-') {
        proof {
            lemma_blanks_end(s, a + 1);
        }
        match product_spec(s, blanks_end(s, a + 1)) {
            Some((u, f)) => if j < f <= s.len() {
                sum_rest(s, TreeView::Op(s[a], Box::new(acc), Box::new(u)), f)
            } else {
                None
            },
            None => Some((acc, j)),
        }
    } else {
        Some((acc, j))
    }
}

/// A sum at `i`: products joined by `+` and `-`, grouped to the left.
pub open spec fn sum_spec(s: Seq<char>, i: int) -> Option<(TreeView, int)>
    decreases s.len() - i, 5int,
{
    match product_spec(s, i) {
        None => None,
        Some((t, e)) => if i < e <= s.len() { sum_rest(s, t, e) } else { None },
    }
}

/// The tree of a whole line, or `None` when it is not a calculation.
pub open spec fn calculation_spec(s: Seq<char>) -> Option<TreeView> {
    match sum_spec(s, blanks_end(s, 0)) {
        Some((t, e)) => if blanks_end(s, e) == s.len() { Some(t) } else { None },
        None => None,
    }
}

/// Exec form of `blanks_end`.
fn skip_blanks(v: &Vec<char>, i: usize) -> (r: usize)
    requires
        i <= v@.len(),
    ensures
        r == blanks_end(v@, i as int),
        i <= r <= v@.len(),
{
    let mut k = i;
    while k < v.len() && (v[k] == ' ' || v[k] == '\t')
        invariant
            i <= k <= v@.len(),
            blanks_end(v@, i as int) == blanks_end(v@, k as int),
        decreases v@.len() - k,
    {
        k = k + 1;
    }
    k
}

/// Exec form of `digits_end`.
fn skip_digits(v: &Vec<char>, i: usize) -> (r: usize)
    requires
        i <= v@.len(),
    ensures
        r == digits_end(v@, i as int),
        i <= r <= v@.len(),
{
    let mut k = i;
    while k < v.len() && '0' <= v[k] && v[k] <= '9'
        invariant
            i <= k <= v@.len(),
            digits_end(v@, i as int) == digits_end(v@, k as int),
        decreases v@.len() - k,
    {
        k = k + 1;
    }
    k
}

/// Exec form of `int_end`.
fn integer_end(v: &Vec<char>, i: usize) -> (r: Option<usize>)
    requires
        i <= v@.len(),
    ensures
        match int_end(v@, i as int) {
            Some(k) => r == Some(k as usize) && i < k <= v@.len(),
            None => r is None,
        },
        r is Some ==> i < r.unwrap() <= v@.len(),
{
    let j = if i < v.len() && (v[i] == '+' || v[i] == '-') { i + 1 } else { i };
    let k = skip_digits(v, j);
    if k > j { Some(k) } else { None }
}

/// Exec form of `num_end`.
fn number_end(v: &Vec<char>, i: usize) -> (r: Option<usize>)
    requires
        i <= v@.len(),
    ensures
        match num_end(v@, i as int) {
            Some(k) => r == Some(k as usize) && i < k <= v@.len(),
            None => r is None,
        },
        r is Some ==> i < r.unwrap() <= v@.len(),
{
    let a = match integer_end(v, i) {
        Some(a) => a,
        None => return None,
    };
    let b = if a < v.len() && v[a] == '.' { skip_digits(v, a + 1) } else { a };
    let c = if b < v.len() && (v[b] == 'e' || v[b] == 'E') {
        match integer_end(v, b + 1) {
            Some(x) => x,
            None => b,
        }
    } else {
        b
    };
    Some(c)
}

/// Parses a term at `i` (see `term_spec`).
fn parse_term(v: &Vec<char>, i: usize) -> (r: Option<(CalcTree, usize)>)
    requires
        i <= v@.len(),
    ensures
        match term_spec(v@, i as int) {
            Some((t, e)) => r is Some && r.unwrap().0@ == t && r.unwrap().1 == e,
            None => r is None,
        },
        r is Some ==> r.unwrap().1 <= v@.len(),
    decreases v@.len() - i, 0int,
{
    let n = v.len();
    match number_end(v, i) {
        Some(e) => {
            let text = string_of(v.as_slice(), i, e);
            Some((CalcTree::Num(text), e))
        },
        None => {
            if i < v.len() && v[i] == '(' {
                let b0 = skip_blanks(v, i + 1);
                match parse_sum(v, b0) {
                    Some((t, e)) => {
                        let b = skip_blanks(v, e);
                        if b < v.len() && v[b] == ')' {
                            Some((t, b + 1))
                        } else {
                            None
                        }
                    },
                    None => None,
                }
            } else {
                None
            }
        },
    }
}

/// Parses a power at `i` (see `power_spec`).
fn parse_power(v: &Vec<char>, i: usize) -> (r: Option<(CalcTree, usize)>)
    requires
        i <= v@.len(),
    ensures
        match power_spec(v@, i as int) {
            Some((t, e)) => r is Some && r.unwrap().0@ == t && r.unwrap().1 == e,
            None => r is None,
        },
        r is Some ==> r.unwrap().1 <= v@.len(),
    decreases v@.len() - i, 1int,
{
    match parse_term(v, i) {
        None => None,
        Some((t, e)) => {
            let a = skip_blanks(v, e);
            if i < e && e <= a && a < v.len() && v[a] == '^' {
                let b = skip_blanks(v, a + 1);
                match parse_power(v, b) {
                    Some((u, f)) => Some((CalcTree::Op('^', Box::new(t), Box::new(u)), f)),
                    None => Some((t, e)),
                }
            } else {
                Some((t, e))
            }
        },
    }
}

/// Parses more factors after a product `acc` that ends at `j` (see
/// `product_rest`).
fn parse_product_rest(v: &Vec<char>, acc: CalcTree, j: usize) -> (r: Option<(CalcTree, usize)>)
    requires
        j <= v@.len(),
    ensures
        match product_rest(v@, acc@, j as int) {
            Some((t, e)) => r is Some && r.unwrap().0@ == t && r.unwrap().1 == e,
            None => r is None,
        },
        r is Some ==> r.unwrap().1 <= v@.len(),
    decreases v@.len() - j, 2int,
{
    let a = skip_blanks(v, j);
    if j <= a && a < v.len() && (v[a] == '*' || v[a] == '/') {
        let b = skip_blanks(v, a + 1);
        let op = v[a];
        match parse_power(v, b) {
            Some((u, f)) => {
                if j < f && f <= v.len() {
                    parse_product_rest(v, CalcTree::Op(op, Box::new(acc), Box::new(u)), f)
                } else {
                    None
                }
            },
            None => Some((acc, j)),
        }
    } else {
        Some((acc, j))
    }
}

/// Parses a product at `i` (see `product_spec`).
fn parse_product(v: &Vec<char>, i: usize) -> (r: Option<(CalcTree, usize)>)
    requires
        i <= v@.len(),
    ensures
        match product_spec(v@, i as int) {
            Some((t, e)) => r is Some && r.unwrap().0@ == t && r.unwrap().1 == e,
            None => r is None,
        },
        r is Some ==> r.unwrap().1 <= v@.len(),
    decreases v@.len() - i, 3int,
{
    match parse_power(v, i) {
        None => None,
        Some((t, e)) => {
            if i < e && e <= v.len() {
                parse_product_rest(v, t, e)
            } else {
                None
            }
        },
    }
}

/// Parses more terms after a sum `acc` that ends at `j` (see `sum_rest`).
fn parse_sum_rest(v: &Vec<char>, acc: CalcTree, j: usize) -> (r: Option<(CalcTree, usize)>)
    requires
        j <= v@.len(),
    ensures
        match sum_rest(v@, acc@, j as int) {
            Some((t, e)) => r is Some && r.unwrap().0@ == t && r.unwrap().1 == e,
            None => r is None,
        },
        r is Some ==> r.unwrap().1 <= v@.len(),
    decreases v@.len() - j, 4int,
{
    let a = skip_blanks(v, j);
    if j <= a && a < v.len() && (v[a] == '+' || v[a] == '-') {
        let b = skip_blanks(v, a + 1);
        let op = v[a];
        match parse_product(v, b) {
            Some((u, f)) => {
                if j < f && f <= v.len() {
                    parse_sum_rest(v, CalcTree::Op(op, Box::new(acc), Box::new(u)), f)
                } else {
                    None
                }
            },
            None => Some((acc, j)),
        }
    } else {
        Some((acc, j))
    }
}

/// Parses a sum at `i` (see `sum_spec`).
fn parse_sum(v: &Vec<char>, i: usize) -> (r: Option<(CalcTree, usize)>)
    requires
        i <= v@.len(),
    ensures
        match sum_spec(v@, i as int) {
            Some((t, e)) => r is Some && r.unwrap().0@ == t && r.unwrap().1 == e,
            None => r is None,
        },
        r is Some ==> r.unwrap().1 <= v@.len(),
    decreases v@.len() - i, 5int,
{
    match parse_product(v, i) {
        None => None,
        Some((t, e)) => {
            if i < e && e <= v.len() {
                parse_sum_rest(v, t, e)
            } else {
                None
            }
        },
    }
}

/// The tree of `line` when it is a calculation (see `calculation_spec`).
pub fn calculate(line: &str) -> (r: Option<CalcTree>)
    ensures
        match calculation_spec(line@) {
            Some(t) => r is Some && r.unwrap()@ == t,
            None => r is None,
        },
{
    let v = chars_of(line);
    let start = skip_blanks(&v, 0);
    match parse_sum(&v, start) {
        Some((t, e)) => {
            if e <= v.len() && skip_blanks(&v, e) == v.len() {
                Some(t)
            } else {
                None
            }
        },
        None => None,
    }
}

/// `x` to the power `e`.
pub open spec fn pow_int(x: int, e: nat) -> int
    decreases e,
{
    if e == 0 {
        1
    } else {
        x * pow_int(x, (e - 1) as nat)
    }
}

/// `v` is within the range of `i64`.
pub open spec fn in_i64(v: int) -> bool {
    i64::MIN <= v <= i64::MAX
}

/// The value of a number as `str::parse::<i64>` reads it; `None` where the
/// text is not an integer in range (the calculation then fails).
pub open spec fn num_value(text: Seq<char>) -> Option<i64> {
    match parse_int_spec(text) {
        Some(v) => if in_i64(v) { Some(v as i64) } else { None },
        None => None,
    }
}

/// Integer division as the calculator does it: by zero, the largest or
/// smallest value by the sign of the dividend (zero for zero); otherwise
/// truncating, where the one overflowing quotient wraps around.
pub open spec fn div_int(x: i64, y: i64) -> i64 {
    if y == 0 {
        if x > 0 {
            i64::MAX
        } else if x < 0 {
            i64::MIN
        } else {
            0
        }
    } else {
        match x.checked_div(y) {
            Some(q) => q,
            None => i64::MIN,
        }
    }
}

/// One operation on integers: `+ - *` wrap around, `/` as `div_int`, and
/// `^` raises to the exponent taken modulo 2^32, failing (`None`) when the
/// power leaves the range of `i64`.
pub open spec fn int_op(c: char, x: i64, y: i64) -> Option<i64> {
    if c == '+' {
        Some(x.wrapping_add(y))
    } else if c == '-' {
        Some(x.wrapping_sub(y))
    } else if c == '*' {
        Some(x.wrapping_mul(y))
    } else if c == '/' {
        Some(div_int(x, y))
    } else {
        let p = pow_int(x as int, (y as u32) as nat);
        if in_i64(p) { Some(p as i64) } else { None }
    }
}

/// The integer value of a calculation, or `None` when a number cannot be
/// read as an integer or a power overflows.
pub open spec fn eval_int_spec(t: TreeView) -> Option<i64>
    decreases t,
{
    match t {
        TreeView::Num(s) => num_value(s),
        TreeView::Op(c, a, b) => match eval_int_spec(*a) {
            Some(x) => match eval_int_spec(*b) {
                Some(y) => int_op(c, x, y),
                None => None,
            },
            None => None,
        },
    }
}

pub open spec fn abs(v: int) -> int {
    if v < 0 { -v } else { v }
}

/// Powers of a base of magnitude at least 2 grow at least twofold.
proof fn lemma_pow_grows(x: int, a: nat, b: nat)
    requires
        abs(x) >= 2,
        a < b,
    ensures
        abs(pow_int(x, b)) >= 2 * abs(pow_int(x, a)),
    decreases b - a,
{
    let p = pow_int(x, (b - 1) as nat);
    assert(abs(x * p) == abs(x) * abs(p)) by (nonlinear_arith);
    assert(abs(x) * abs(p) >= 2 * abs(p)) by (nonlinear_arith)
        requires
            abs(x) >= 2,
            abs(p) >= 0,
    ;
    if a < b - 1 {
        lemma_pow_grows(x, a, (b - 1) as nat);
    }
}

/// Once a power of a base of magnitude at least 2 leaves the range of
/// `i64`, all higher powers do.
proof fn lemma_pow_escapes(x: int, k: nat, e: nat)
    requires
        abs(x) >= 2,
        k <= e,
        !in_i64(pow_int(x, k)),
    ensures
        !in_i64(pow_int(x, e)),
{
    if k < e {
        lemma_pow_grows(x, k, e);
    }
}

/// Powers of zero, one and minus one.
proof fn lemma_pow_small(x: int, e: nat)
    requires
        -1 <= x <= 1,
    ensures
        x == 0 ==> pow_int(x, e) == (if e == 0 { 1int } else { 0int }),
        x == 1 ==> pow_int(x, e) == 1,
        x == -1 ==> pow_int(x, e) == (if e % 2 == 0 { 1int } else { -1int }),
    decreases e,
{
    if e > 0 {
        lemma_pow_small(x, (e - 1) as nat);
    }
}

/// `x` to the power `e`, or `None` when it leaves the range of `i64`.
fn checked_pow(x: i64, e: u32) -> (r: Option<i64>)
    ensures
        r == (if in_i64(pow_int(x as int, e as nat)) { Some(pow_int(x as int, e as nat) as i64) } else { None }),
{
    if -1 <= x && x <= 1 {
        proof {
            lemma_pow_small(x as int, e as nat);
        }
        if x == 0 {
            return if e == 0 { Some(1) } else { Some(0) };
        } else if x == 1 {
            return Some(1);
        } else {
            return if e % 2 == 0 { Some(1) } else { Some(-1) };
        }
    }
    let mut acc: i64 = 1;
    let mut k: u32 = 0;
    while k < e
        invariant
            abs(x as int) >= 2,
            k <= e,
            acc as int == pow_int(x as int, k as nat),
        decreases e - k,
    {
        match acc.checked_mul(x) {
            Some(p) => {
                acc = p;
            },
            None => {
                proof {
                    assert(pow_int(x as int, (k + 1) as nat) == x * pow_int(x as int, k as nat));
                    lemma_pow_escapes(x as int, (k + 1) as nat, e as nat);
                }
                return None;
            },
        }
        k = k + 1;
    }
    Some(acc)
}

/// Exec form of `num_value`.
fn number_value(text: &String) -> (r: Option<i64>)
    ensures
        r == num_value(text@),
{
    crate::text::parse_i64(text.as_str())
}

/// Exec form of `int_op`.
fn apply_int_op(c: char, x: i64, y: i64) -> (r: Option<i64>)
    ensures
        r == int_op(c, x, y),
{
    if c == '+' {
        Some(x.wrapping_add(y))
    } else if c == '-' {
        Some(x.wrapping_sub(y))
    } else if c == '*' {
        Some(x.wrapping_mul(y))
    } else if c == '/' {
        if y == 0 {
            Some(if x > 0 { i64::MAX } else if x < 0 { i64::MIN } else { 0 })
        } else {
            match x.checked_div(y) {
                Some(q) => Some(q),
                None => Some(i64::MIN),
            }
        }
    } else {
        checked_pow(x, y as u32)
    }
}

/// The integer value of a calculation (see `eval_int_spec`).
pub fn eval_int(t: &CalcTree) -> (r: Option<i64>)
    ensures
        r == eval_int_spec(t@),
    decreases t,
{
    match t {
        CalcTree::Num(s) => number_value(s),
        CalcTree::Op(c, a, b) => {
            match eval_int(a) {
                Some(x) => match eval_int(b) {
                    Some(y) => apply_int_op(*c, x, y),
                    None => None,
                },
                None => None,
            }
        },
    }
}

/// Evaluates an integer calculation: its value in decimal, or the error
/// `syntax error` when `line` is not a calculation.
pub fn run_calculator(line: &str) -> (r: Result<String, &'static str>)
    requires
        !line@.contains('.'),
        calculation_spec(line@) matches Some(t) ==> eval_int_spec(t) is Some,
    ensures
        match calculation_spec(line@) {
            None => match r {
                Err(e) => e@ == "syntax error"@,
                Ok(_) => false,
            },
            Some(t) => match r {
                Ok(s) => s@ == decimal(eval_int_spec(t).unwrap() as int),
                Err(_) => false,
            },
        },
{
    match calculate(line) {
        Some(t) => {
            let v = eval_int(&t).unwrap();
            Ok(decimal_text(v))
        },
        None => Err("syntax error"),
    }
}

/// Digits run to the end of a text that ends in digits.
proof fn lemma_digits_to_end(s: Seq<char>, j: int)
    requires
        0 <= j <= s.len(),
        forall|i: int| j <= i < s.len() ==> is_digit(#[trigger] s[i]),
    ensures
        digits_end(s, j) == s.len(),
    decreases s.len() - j,
{
    if j < s.len() {
        assert(is_digit(s[j]));
        lemma_digits_to_end(s, j + 1);
    }
}

/// A number typed alone is a calculation whose value is that number: the
/// calculator gives back the decimal form of any `i64`.
pub proof fn lemma_number_alone(n: i64)
    ensures
        calculation_spec(decimal(n as int)) == Some(TreeView::Num(decimal(n as int))),
        eval_int_spec(TreeView::Num(decimal(n as int))) == Some(n),
{
    let s = decimal(n as int);
    lemma_decimal_roundtrip(n as int);
    let m: nat = if n < 0 { (-n) as nat } else { n as nat };
    lemma_digits_of(m);
    let d = digits_of(m);
    let j: int = if n < 0 { 1 } else { 0 };
    assert(s.skip(j) =~= d);
    assert forall|i: int| j <= i < s.len() implies is_digit(#[trigger] s[i]) by {
        assert(s[i] == d[i - j]);
    }
    assert(s[j] == d[0]);
    lemma_digits_to_end(s, j);
    assert(blanks_end(s, 0) == 0) by {
        assert(is_digit(s[0]) || s[0] == '-');
    }
    assert(int_end(s, 0) == Some(s.len() as int));
    assert(num_end(s, 0) == Some(s.len() as int));
    assert(s.subrange(0, s.len() as int) =~= s);
    assert(term_spec(s, 0) == Some((TreeView::Num(s), s.len() as int)));
    assert(power_spec(s, 0) == Some((TreeView::Num(s), s.len() as int)));
    assert(product_rest(s, TreeView::Num(s), s.len() as int) == Some((TreeView::Num(s), s.len() as int)));
    assert(product_spec(s, 0) == Some((TreeView::Num(s), s.len() as int)));
    assert(sum_rest(s, TreeView::Num(s), s.len() as int) == Some((TreeView::Num(s), s.len() as int)));
    assert(sum_spec(s, 0) == Some((TreeView::Num(s), s.len() as int)));
}

/// A run of digits from `i` ends at `k`.
proof fn lemma_digit_run(s: Seq<char>, i: int, k: int)
    requires
        0 <= i <= k <= s.len(),
        forall|j: int| i <= j < k ==> is_digit(#[trigger] s[j]),
        k == s.len() || !is_digit(s[k]),
    ensures
        digits_end(s, i) == k,
    decreases k - i,
{
    if i < k {
        assert(is_digit(s[i]));
        lemma_digit_run(s, i + 1, k);
    }
}

/// The digits `s[i..k]`, followed by the end of the line or by a blank and
/// `*` or `/`, are a power on their own: that number.
proof fn lemma_number_power(s: Seq<char>, i: int, k: int)
    requires
        0 <= i < k <= s.len(),
        forall|j: int| i <= j < k ==> is_digit(#[trigger] s[j]),
        k == s.len() || (k + 1 < s.len() && s[k] == ' ' && (s[k + 1] == '*' || s[k + 1] == '/')),
    ensures
        power_spec(s, i) == Some((TreeView::Num(s.subrange(i, k)), k)),
{
    lemma_digit_run(s, i, k);
    assert(is_digit(s[i]));
    assert(int_end(s, i) == Some(k));
    assert(num_end(s, i) == Some(k));
    assert(term_spec(s, i) == Some((TreeView::Num(s.subrange(i, k)), k)));
    if k < s.len() {
        assert(blanks_end(s, k + 1) == k + 1);
        assert(blanks_end(s, k) == k + 1);
    } else {
        assert(blanks_end(s, k) == k);
    }
}

/// One more factor, written ` * u` or ` / u` after a product that ends at
/// `j`, joins it as the right operand.
proof fn lemma_product_step(s: Seq<char>, acc: TreeView, j: int, u: TreeView, f: int)
    requires
        0 <= j,
        j + 3 < s.len(),
        s[j] == ' ',
        s[j + 1] == '*' || s[j + 1] == '/',
        s[j + 2] == ' ',
        is_digit(s[j + 3]),
        power_spec(s, j + 3) == Some((u, f)),
        j < f <= s.len(),
    ensures
        product_rest(s, acc, j) == product_rest(s, TreeView::Op(s[j + 1], Box::new(acc), Box::new(u)), f),
{
    assert(blanks_end(s, j + 3) == j + 3);
    assert(blanks_end(s, j + 2) == j + 3);
    assert(blanks_end(s, j + 1) == j + 1);
    assert(blanks_end(s, j) == j + 1);
}

/// A product that reaches the end of the line has no more factors, and a
/// sum that does has no more terms.
proof fn lemma_rest_at_end(s: Seq<char>, acc: TreeView)
    ensures
        product_rest(s, acc, s.len() as int) == Some((acc, s.len() as int)),
        sum_rest(s, acc, s.len() as int) == Some((acc, s.len() as int)),
{
    assert(blanks_end(s, s.len() as int) == s.len());
}

/// `*` and `/` bind equally and group to the left: for numbers `a`, `b`,
/// `c`, the calculation `a op1 b op2 c` (each operator `*` or `/`, with
/// blanks around it) is `(a op1 b) op2 c`.
pub proof fn lemma_products_group_left(a: Seq<char>, b: Seq<char>, c: Seq<char>, op1: char, op2: char)
    requires
        a.len() > 0,
        b.len() > 0,
        c.len() > 0,
        forall|i: int| 0 <= i < a.len() ==> is_digit(#[trigger] a[i]),
        forall|i: int| 0 <= i < b.len() ==> is_digit(#[trigger] b[i]),
        forall|i: int| 0 <= i < c.len() ==> is_digit(#[trigger] c[i]),
        op1 == '*' || op1 == '/',
        op2 == '*' || op2 == '/',
    ensures
        calculation_spec(a + seq![' ', op1, ' '] + b + seq![' ', op2, ' '] + c) == Some(
            TreeView::Op(
                op2,
                Box::new(TreeView::Op(op1, Box::new(TreeView::Num(a)), Box::new(TreeView::Num(b)))),
                Box::new(TreeView::Num(c)),
            ),
        ),
{
    let s = a + seq![' ', op1, ' '] + b + seq![' ', op2, ' '] + c;
    let la = a.len() as int;
    let b0 = la + 3;
    let e2 = b0 + b.len();
    let c0 = e2 + 3;
    let n = s.len() as int;
    assert(n == c0 + c.len());
    assert(s[la] == ' ' && s[la + 1] == op1 && s[la + 2] == ' ');
    assert(s[e2] == ' ' && s[e2 + 1] == op2 && s[e2 + 2] == ' ');
    assert forall|j: int| 0 <= j < la implies is_digit(#[trigger] s[j]) by {
        assert(s[j] == a[j]);
    }
    assert forall|j: int| b0 <= j < e2 implies is_digit(#[trigger] s[j]) by {
        assert(s[j] == b[j - b0]);
    }
    assert forall|j: int| c0 <= j < n implies is_digit(#[trigger] s[j]) by {
        assert(s[j] == c[j - c0]);
    }
    assert(s.subrange(0, la) =~= a);
    assert(s.subrange(b0, e2) =~= b);
    assert(s.subrange(c0, n) =~= c);
    lemma_number_power(s, 0, la);
    lemma_number_power(s, b0, e2);
    lemma_number_power(s, c0, n);
    let ta = TreeView::Num(a);
    let tab = TreeView::Op(op1, Box::new(ta), Box::new(TreeView::Num(b)));
    let t = TreeView::Op(op2, Box::new(tab), Box::new(TreeView::Num(c)));
    assert(is_digit(s[b0]));
    assert(is_digit(s[c0]));
    lemma_rest_at_end(s, t);
    lemma_product_step(s, tab, e2, TreeView::Num(c), n);
    lemma_product_step(s, ta, la, TreeView::Num(b), e2);
    assert(product_spec(s, 0) == Some((t, n)));
    assert(is_digit(s[0]));
    assert(blanks_end(s, 0) == 0);
    assert(sum_spec(s, 0) == Some((t, n)));
}

/// How tightly an operator binds: `+` and `-` least, then `*` and `/`,
/// then `^`; `0` for a character that is no operator.
pub open spec fn rank(op: char) -> int {
    if op == '+' || op == '-' {
        1
    } else if op == '*' || op == '/' {
        2
    } else if op == '^' {
        3
    } else {
        0
    }
}

/// The digits `s[i..k]`, followed by the end of the line or a blank, are a
/// term: that number.
proof fn lemma_num_term(s: Seq<char>, i: int, k: int)
    requires
        0 <= i < k <= s.len(),
        forall|j: int| i <= j < k ==> is_digit(#[trigger] s[j]),
        k == s.len() || s[k] == ' ',
    ensures
        term_spec(s, i) == Some((TreeView::Num(s.subrange(i, k)), k)),
{
    lemma_digit_run(s, i, k);
    assert(is_digit(s[i]));
    assert(int_end(s, i) == Some(k));
    assert(num_end(s, i) == Some(k));
}

/// A number followed by the end of the line, or by a blank and an operator
/// other than `^`, is a power on its own.
proof fn lemma_power_plain(s: Seq<char>, i: int, k: int)
    requires
        0 <= i < k <= s.len(),
        forall|j: int| i <= j < k ==> is_digit(#[trigger] s[j]),
        k == s.len() || (k + 1 < s.len() && s[k] == ' ' && s[k + 1] != '^' && !is_blank(s[k + 1])),
    ensures
        power_spec(s, i) == Some((TreeView::Num(s.subrange(i, k)), k)),
{
    lemma_num_term(s, i, k);
    if k < s.len() {
        assert(blanks_end(s, k + 1) == k + 1);
        assert(blanks_end(s, k) == k + 1);
    } else {
        assert(blanks_end(s, k) == k);
    }
}

/// A number followed by ` ^ ` and a power `u` is raised to `u`.
proof fn lemma_power_raise(s: Seq<char>, i: int, k: int, u: TreeView, f: int)
    requires
        0 <= i < k,
        k + 3 < s.len(),
        forall|j: int| i <= j < k ==> is_digit(#[trigger] s[j]),
        s[k] == ' ',
        s[k + 1] == '^',
        s[k + 2] == ' ',
        is_digit(s[k + 3]),
        power_spec(s, k + 3) == Some((u, f)),
    ensures
        power_spec(s, i) == Some((TreeView::Op('^', Box::new(TreeView::Num(s.subrange(i, k))), Box::new(u)), f)),
{
    lemma_num_term(s, i, k);
    assert(blanks_end(s, k + 3) == k + 3);
    assert(blanks_end(s, k + 2) == k + 3);
    assert(blanks_end(s, k + 1) == k + 1);
    assert(blanks_end(s, k) == k + 1);
}

/// A product followed by ` + ` or ` - ` ends there.
proof fn lemma_product_stop(s: Seq<char>, acc: TreeView, j: int)
    requires
        0 <= j,
        j + 1 < s.len(),
        s[j] == ' ',
        s[j + 1] == '+' || s[j + 1] == '-',
    ensures
        product_rest(s, acc, j) == Some((acc, j)),
{
    assert(blanks_end(s, j + 1) == j + 1);
    assert(blanks_end(s, j) == j + 1);
}

/// One more term, written ` + u` or ` - u` after a sum that ends at `j`,
/// joins it as the right operand.
proof fn lemma_sum_step(s: Seq<char>, acc: TreeView, j: int, u: TreeView, f: int)
    requires
        0 <= j,
        j + 3 < s.len(),
        s[j] == ' ',
        s[j + 1] == '+' || s[j + 1] == '-',
        s[j + 2] == ' ',
        is_digit(s[j + 3]),
        product_spec(s, j + 3) == Some((u, f)),
        j < f <= s.len(),
    ensures
        sum_rest(s, acc, j) == sum_rest(s, TreeView::Op(s[j + 1], Box::new(acc), Box::new(u)), f),
{
    assert(blanks_end(s, j + 3) == j + 3);
    assert(blanks_end(s, j + 2) == j + 3);
    assert(blanks_end(s, j + 1) == j + 1);
    assert(blanks_end(s, j) == j + 1);
}

/// A line whose sum from its first character is `t`, reaching the end, is
/// the calculation `t`.
proof fn lemma_calculation_of(s: Seq<char>, t: TreeView)
    requires
        s.len() > 0,
        is_digit(s[0]),
        sum_spec(s, 0) == Some((t, s.len() as int)),
    ensures
        calculation_spec(s) == Some(t),
{
    assert(blanks_end(s, 0) == 0);
    assert(blanks_end(s, s.len() as int) == s.len());
}

/// The operators bind by rank and group to the left, but for `^`, which
/// groups to the right: for numbers `a`, `b`, `c` and operators `op1`,
/// `op2` among `+ - * / ^`, the calculation `a op1 b op2 c` (with blanks
/// around the operators) is `a op1 (b op2 c)` when `op2` binds more
/// tightly than `op1` or both are `^`, and `(a op1 b) op2 c` otherwise.
#[verifier::rlimit(40)]
pub proof fn lemma_binary_chain(a: Seq<char>, b: Seq<char>, c: Seq<char>, op1: char, op2: char)
    requires
        a.len() > 0,
        b.len() > 0,
        c.len() > 0,
        forall|i: int| 0 <= i < a.len() ==> is_digit(#[trigger] a[i]),
        forall|i: int| 0 <= i < b.len() ==> is_digit(#[trigger] b[i]),
        forall|i: int| 0 <= i < c.len() ==> is_digit(#[trigger] c[i]),
        rank(op1) > 0,
        rank(op2) > 0,
    ensures
        calculation_spec(a + seq![' ', op1, ' '] + b + seq![' ', op2, ' '] + c) == Some(
            if rank(op2) > rank(op1) || (op1 == '^' && op2 == '^') {
                TreeView::Op(
                    op1,
                    Box::new(TreeView::Num(a)),
                    Box::new(TreeView::Op(op2, Box::new(TreeView::Num(b)), Box::new(TreeView::Num(c)))),
                )
            } else {
                TreeView::Op(
                    op2,
                    Box::new(TreeView::Op(op1, Box::new(TreeView::Num(a)), Box::new(TreeView::Num(b)))),
                    Box::new(TreeView::Num(c)),
                )
            },
        ),
{
    let s = a + seq![' ', op1, ' '] + b + seq![' ', op2, ' '] + c;
    let la = a.len() as int;
    let b0 = la + 3;
    let e2 = b0 + b.len();
    let c0 = e2 + 3;
    let n = s.len() as int;
    assert(n == c0 + c.len());
    assert(s[la] == ' ' && s[la + 1] == op1 && s[la + 2] == ' ');
    assert(s[e2] == ' ' && s[e2 + 1] == op2 && s[e2 + 2] == ' ');
    assert forall|j: int| 0 <= j < la implies is_digit(#[trigger] s[j]) by {
        assert(s[j] == a[j]);
    }
    assert forall|j: int| b0 <= j < e2 implies is_digit(#[trigger] s[j]) by {
        assert(s[j] == b[j - b0]);
    }
    assert forall|j: int| c0 <= j < n implies is_digit(#[trigger] s[j]) by {
        assert(s[j] == c[j - c0]);
    }
    assert(s.subrange(0, la) =~= a);
    assert(s.subrange(b0, e2) =~= b);
    assert(s.subrange(c0, n) =~= c);
    assert(is_digit(s[0]) && is_digit(s[b0]) && is_digit(s[c0]));
    let na = TreeView::Num(a);
    let nb = TreeView::Num(b);
    let nc = TreeView::Num(c);
    lemma_power_plain(s, c0, n);
    if rank(op2) > rank(op1) || (op1 == '^' && op2 == '^') {
        let bc = TreeView::Op(op2, Box::new(nb), Box::new(nc));
        let t = TreeView::Op(op1, Box::new(na), Box::new(bc));
        lemma_rest_at_end(s, t);
        if op2 == '^' {
            lemma_power_raise(s, b0, e2, nc, n);
            lemma_rest_at_end(s, bc);
            if op1 == '^' {
                lemma_power_raise(s, 0, la, bc, n);
            } else {
                lemma_power_plain(s, 0, la);
                if op1 == '*' || op1 == '/' {
                    lemma_product_step(s, na, la, bc, n);
                } else {
                    lemma_product_stop(s, na, la);
                    lemma_sum_step(s, na, la, bc, n);
                }
            }
        } else {
            lemma_power_plain(s, b0, e2);
            lemma_product_step(s, nb, e2, nc, n);
            lemma_rest_at_end(s, bc);
            lemma_power_plain(s, 0, la);
            lemma_product_stop(s, na, la);
            lemma_sum_step(s, na, la, bc, n);
        }
        lemma_calculation_of(s, t);
    } else {
        let ab = TreeView::Op(op1, Box::new(na), Box::new(nb));
        let t = TreeView::Op(op2, Box::new(ab), Box::new(nc));
        lemma_rest_at_end(s, t);
        lemma_rest_at_end(s, nc);
        if op1 == '^' {
            lemma_power_plain(s, b0, e2);
            lemma_power_raise(s, 0, la, nb, e2);
            if op2 == '*' || op2 == '/' {
                lemma_product_step(s, ab, e2, nc, n);
            } else {
                lemma_product_stop(s, ab, e2);
                lemma_sum_step(s, ab, e2, nc, n);
            }
        } else {
            lemma_power_plain(s, 0, la);
            lemma_power_plain(s, b0, e2);
            if op1 == '*' || op1 == '/' {
                lemma_product_step(s, na, la, nb, e2);
                if op2 == '*' || op2 == '/' {
                    lemma_product_step(s, ab, e2, nc, n);
                } else {
                    lemma_product_stop(s, ab, e2);
                    lemma_sum_step(s, ab, e2, nc, n);
                }
            } else {
                lemma_product_stop(s, na, la);
                lemma_product_stop(s, nb, e2);
                lemma_sum_step(s, na, la, nb, e2);
                lemma_sum_step(s, ab, e2, nc, n);
            }
        }
        lemma_calculation_of(s, t);
    }
}

} // verus!
