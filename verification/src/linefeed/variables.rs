//! User-configurable variables of the line reader.
use vstd::prelude::*;

use crate::text::{decimal, decimal_text, eq_ignore_case, eq_ignore_case_spec, lemma_decimal_roundtrip, parse_i32, parse_i32_spec, str_eq};

verus! {

/// Default `keyseq-timeout`, in milliseconds.
pub const KEYSEQ_TIMEOUT_MS: u64 = 500;

/// Number of variables.
pub const NUM_VARIABLES: usize = 9;

/// The value of a reader variable.
#[derive(Clone, Debug)]
pub enum Variable {
    /// Boolean variable
    Boolean(bool),
    /// Integer variable
    Integer(i32),
    /// String variable
    String(String),
}

/// What a `Variable` holds, with its text as a sequence of characters.
pub enum VariableView {
    Boolean(bool),
    Integer(i32),
    Text(Seq<char>),
}

impl View for Variable {
    type V = VariableView;

    open spec fn view(&self) -> VariableView {
        match self {
            Variable::Boolean(b) => VariableView::Boolean(*b),
            Variable::Integer(n) => VariableView::Integer(*n),
            Variable::String(s) => VariableView::Text(s@),
        }
    }
}

/// The text that displays a variable's value: `on` or `off`, the decimal
/// number, or the string itself.
pub open spec fn variable_text(v: VariableView) -> Seq<char> {
    match v {
        VariableView::Boolean(b) => if b { "on"@ } else { "off"@ },
        VariableView::Integer(n) => decimal(n as int),
        VariableView::Text(s) => s,
    }
}

impl Variable {
    /// The text that displays this value (what `Display` writes).
    pub fn to_text(&self) -> (s: String)
        ensures
            s@ == variable_text(self@),
    {
        match self {
            Variable::Boolean(b) => if *b { "on".to_string() } else { "off".to_string() },
            Variable::Integer(n) => decimal_text(*n as i64),
            Variable::String(s) => s.clone(),
        }
    }
}

/// The settings of a line reader.
pub struct Variables {
    pub blink_matching_paren: bool,
    pub comment_begin: String,
    pub completion_display_width: usize,
    pub completion_query_items: usize,
    pub disable_completion: bool,
    pub echo_control_characters: bool,
    /// Milliseconds to wait for the rest of a key sequence; `None` waits
    /// without end.
    pub keyseq_timeout: Option<u64>,
    pub page_completions: bool,
    pub print_completions_horizontally: bool,
}

/// The settings, with the comment text as characters.
pub struct VarsView {
    pub blink_matching_paren: bool,
    pub comment_begin: Seq<char>,
    pub completion_display_width: usize,
    pub completion_query_items: usize,
    pub disable_completion: bool,
    pub echo_control_characters: bool,
    pub keyseq_timeout: Option<u64>,
    pub page_completions: bool,
    pub print_completions_horizontally: bool,
}

impl View for Variables {
    type V = VarsView;

    open spec fn view(&self) -> VarsView {
        VarsView {
            blink_matching_paren: self.blink_matching_paren,
            comment_begin: self.comment_begin@,
            completion_display_width: self.completion_display_width,
            completion_query_items: self.completion_query_items,
            disable_completion: self.disable_completion,
            echo_control_characters: self.echo_control_characters,
            keyseq_timeout: self.keyseq_timeout,
            page_completions: self.page_completions,
            print_completions_horizontally: self.print_completions_horizontally,
        }
    }
}

impl VarsView {
    /// A timeout, when set, is within the range of `i32`.
    pub open spec fn wf(self) -> bool {
        match self.keyseq_timeout {
            Some(ms) => ms <= i32::MAX,
            None => true,
        }
    }

    /// The value of variable number `i`.
    pub open spec fn value_of(self, i: int) -> VariableView {
        if i == 0 {
            VariableView::Boolean(self.blink_matching_paren)
        } else if i == 1 {
            VariableView::Text(self.comment_begin)
        } else if i == 2 {
            VariableView::Integer(usize_as_i32_spec(self.completion_display_width))
        } else if i == 3 {
            VariableView::Integer(usize_as_i32_spec(self.completion_query_items))
        } else if i == 4 {
            VariableView::Boolean(self.disable_completion)
        } else if i == 5 {
            VariableView::Boolean(self.echo_control_characters)
        } else if i == 6 {
            VariableView::Integer(as_millis_spec(self.keyseq_timeout))
        } else if i == 7 {
            VariableView::Boolean(self.page_completions)
        } else {
            VariableView::Boolean(self.print_completions_horizontally)
        }
    }

    /// The settings after variable number `i` is set from `value`, or
    /// `None` when the variable does not take that value.
    pub open spec fn set(self, i: int, value: Seq<char>) -> Option<VarsView> {
        if i == 0 || i == 4 || i == 5 || i == 7 || i == 8 {
            match parse_bool_spec(value) {
                None => None,
                Some(b) => Some(
                    if i == 0 {
                        VarsView { blink_matching_paren: b, ..self }
                    } else if i == 4 {
                        VarsView { disable_completion: b, ..self }
                    } else if i == 5 {
                        VarsView { echo_control_characters: b, ..self }
                    } else if i == 7 {
                        VarsView { page_completions: b, ..self }
                    } else {
                        VarsView { print_completions_horizontally: b, ..self }
                    },
                ),
            }
        } else if i == 2 || i == 3 {
            match parse_usize_spec(value) {
                None => None,
                Some(u) => Some(
                    if i == 2 {
                        VarsView { completion_display_width: u, ..self }
                    } else {
                        VarsView { completion_query_items: u, ..self }
                    },
                ),
            }
        } else if i == 1 {
            Some(VarsView { comment_begin: value, ..self })
        } else {
            Some(VarsView { keyseq_timeout: parse_duration_spec(value), ..self })
        }
    }

    /// The settings after the variable called `name` is set from `value`;
    /// unchanged for an unknown name or a value that it does not take.
    pub open spec fn set_named(self, name: Seq<char>, value: Seq<char>) -> VarsView {
        match var_index(name) {
            Some(i) => match self.set(i, value) {
                Some(v) => v,
                None => self,
            },
            None => self,
        }
    }
}

/// The name of variable number `i`, in the order in which they are listed.
pub open spec fn var_name(i: int) -> Seq<char> {
    if i == 0 {
        "blink-matching-paren"@
    } else if i == 1 {
        "comment-begin"@
    } else if i == 2 {
        "completion-display-width"@
    } else if i == 3 {
        "completion-query-items"@
    } else if i == 4 {
        "disable-completion"@
    } else if i == 5 {
        "echo-control-characters"@
    } else if i == 6 {
        "keyseq-timeout"@
    } else if i == 7 {
        "page-completions"@
    } else {
        "print-completions-horizontally"@
    }
}

/// The number of the variable called `name`, if there is one.
pub open spec fn var_index(name: Seq<char>) -> Option<int> {
    if name == var_name(0) {
        Some(0)
    } else if name == var_name(1) {
        Some(1)
    } else if name == var_name(2) {
        Some(2)
    } else if name == var_name(3) {
        Some(3)
    } else if name == var_name(4) {
        Some(4)
    } else if name == var_name(5) {
        Some(5)
    } else if name == var_name(6) {
        Some(6)
    } else if name == var_name(7) {
        Some(7)
    } else if name == var_name(8) {
        Some(8)
    } else {
        None
    }
}

/// A count as an `i32`; counts beyond its range read as `-1`.
pub open spec fn usize_as_i32_spec(u: usize) -> i32 {
    if u > i32::MAX { -1i32 } else { u as i32 }
}

/// A timeout in milliseconds as an `i32`; no timeout reads as `-1`.
pub open spec fn as_millis_spec(t: Option<u64>) -> i32 {
    match t {
        Some(ms) => ms as i32,
        None => -1i32,
    }
}

/// `0`, `1`, `off` and `on` (in any case) are the boolean values.
pub open spec fn parse_bool_spec(s: Seq<char>) -> Option<bool> {
    if s == "0"@ {
        Some(false)
    } else if s == "1"@ {
        Some(true)
    } else if eq_ignore_case_spec(s, "off"@) {
        Some(false)
    } else if eq_ignore_case_spec(s, "on"@) {
        Some(true)
    } else {
        None
    }
}

/// A count is a decimal `i32`; a negative one means no limit.
pub open spec fn parse_usize_spec(s: Seq<char>) -> Option<usize> {
    match parse_i32_spec(s) {
        Some(n) => if n < 0 { Some(usize::MAX) } else { Some(n as usize) },
        None => None,
    }
}

/// A timeout is a positive decimal `i32` of milliseconds; anything else
/// means no timeout.
pub open spec fn parse_duration_spec(s: Seq<char>) -> Option<u64> {
    match parse_i32_spec(s) {
        Some(n) => if n <= 0 { None } else { Some(n as u64) },
        None => None,
    }
}

impl Variables {
    /// A timeout, when set, is within the range of `i32`.
    pub open spec fn wf(&self) -> bool {
        self@.wf()
    }

    /// The value of the variable called `name`, or `None` for an unknown
    /// name.
    pub fn get_variable(&self, name: &str) -> (r: Option<Variable>)
        requires
            self.wf(),
        ensures
            match var_index(name@) {
                Some(i) => r is Some && r.unwrap()@ == self@.value_of(i),
                None => r is None,
            },
    {
        match variable_number(name) {
            Some(i) => Some(self.value_at(i)),
            None => None,
        }
    }

    /// Sets the variable called `name` from the text `value`, and returns
    /// its former value. Returns `None`, changing nothing, for an unknown
    /// name or a value that the variable does not take.
    pub fn set_variable(&mut self, name: &str, value: &str) -> (r: Option<Variable>)
        requires
            old(self).wf(),
        ensures
            final(self).wf(),
            final(self)@ == old(self)@.set_named(name@, value@),
            match var_index(name@) {
                Some(i) => match old(self)@.set(i, value@) {
                    Some(_) => r is Some && r.unwrap()@ == old(self)@.value_of(i),
                    None => r is None,
                },
                None => r is None,
            },
    {
        let i = match variable_number(name) {
            Some(i) => i,
            None => return None,
        };
        let old_value = self.value_at(i);
        if i == 0 || i == 4 || i == 5 || i == 7 || i == 8 {
            let b = match parse_bool(value) {
                Some(b) => b,
                None => return None,
            };
            if i == 0 {
                self.blink_matching_paren = b;
            } else if i == 4 {
                self.disable_completion = b;
            } else if i == 5 {
                self.echo_control_characters = b;
            } else if i == 7 {
                self.page_completions = b;
            } else {
                self.print_completions_horizontally = b;
            }
        } else if i == 2 || i == 3 {
            let u = match parse_usize(value) {
                Some(u) => u,
                None => return None,
            };
            if i == 2 {
                self.completion_display_width = u;
            } else {
                self.completion_query_items = u;
            }
        } else if i == 1 {
            self.comment_begin = value.to_string();
        } else {
            self.keyseq_timeout = parse_duration(value);
        }
        Some(old_value)
    }

    /// The value of variable number `i`.
    fn value_at(&self, i: usize) -> (v: Variable)
        requires
            self.wf(),
            i < NUM_VARIABLES,
        ensures
            v@ == self@.value_of(i as int),
    {
        if i == 0 {
            Variable::Boolean(self.blink_matching_paren)
        } else if i == 1 {
            Variable::String(self.comment_begin.clone())
        } else if i == 2 {
            Variable::Integer(usize_as_i32(self.completion_display_width))
        } else if i == 3 {
            Variable::Integer(usize_as_i32(self.completion_query_items))
        } else if i == 4 {
            Variable::Boolean(self.disable_completion)
        } else if i == 5 {
            Variable::Boolean(self.echo_control_characters)
        } else if i == 6 {
            Variable::Integer(as_millis(self.keyseq_timeout))
        } else if i == 7 {
            Variable::Boolean(self.page_completions)
        } else {
            Variable::Boolean(self.print_completions_horizontally)
        }
    }

    /// The variables with their values, in order.
    pub fn iter(&self) -> (it: VariableIter<'_>)
        ensures
            it.vars() == self,
            it.position() == 0,
    {
        VariableIter { vars: self, n: 0 }
    }

    /// The default settings.
    pub fn new() -> (v: Variables)
        ensures
            v.wf(),
            v@ == default_vars(),
    {
        Variables {
            blink_matching_paren: false,
            comment_begin: "#".to_string(),
            completion_display_width: usize::MAX,
            completion_query_items: 100,
            disable_completion: false,
            echo_control_characters: true,
            keyseq_timeout: Some(KEYSEQ_TIMEOUT_MS),
            page_completions: true,
            print_completions_horizontally: false,
        }
    }
}

/// The default settings: no blinking, `#` for comments, no limit on the
/// display width, 100 completions before asking, completion enabled,
/// control characters echoed, a key sequence timeout of 500 ms, completions
/// paged and listed down the columns.
pub open spec fn default_vars() -> VarsView {
    VarsView {
        blink_matching_paren: false,
        comment_begin: "#"@,
        completion_display_width: usize::MAX,
        completion_query_items: 100,
        disable_completion: false,
        echo_control_characters: true,
        keyseq_timeout: Some(KEYSEQ_TIMEOUT_MS),
        page_completions: true,
        print_completions_horizontally: false,
    }
}

/// The number of the variable called `name`.
fn variable_number(name: &str) -> (r: Option<usize>)
    ensures
        match var_index(name@) {
            Some(i) => r == Some(i as usize),
            None => r is None,
        },
{
    if str_eq(name, "blink-matching-paren") {
        Some(0)
    } else if str_eq(name, "comment-begin") {
        Some(1)
    } else if str_eq(name, "completion-display-width") {
        Some(2)
    } else if str_eq(name, "completion-query-items") {
        Some(3)
    } else if str_eq(name, "disable-completion") {
        Some(4)
    } else if str_eq(name, "echo-control-characters") {
        Some(5)
    } else if str_eq(name, "keyseq-timeout") {
        Some(6)
    } else if str_eq(name, "page-completions") {
        Some(7)
    } else if str_eq(name, "print-completions-horizontally") {
        Some(8)
    } else {
        None
    }
}

/// The name of variable number `i`.
fn variable_name(i: usize) -> (s: &'static str)
    requires
        i < NUM_VARIABLES,
    ensures
        s@ == var_name(i as int),
{
    if i == 0 {
        "blink-matching-paren"
    } else if i == 1 {
        "comment-begin"
    } else if i == 2 {
        "completion-display-width"
    } else if i == 3 {
        "completion-query-items"
    } else if i == 4 {
        "disable-completion"
    } else if i == 5 {
        "echo-control-characters"
    } else if i == 6 {
        "keyseq-timeout"
    } else if i == 7 {
        "page-completions"
    } else {
        "print-completions-horizontally"
    }
}

/// Parses a boolean setting.
pub fn parse_bool(s: &str) -> (r: Option<bool>)
    ensures
        r == parse_bool_spec(s@),
{
    if str_eq(s, "0") {
        Some(false)
    } else if str_eq(s, "1") {
        Some(true)
    } else if eq_ignore_case(s, "off") {
        Some(false)
    } else if eq_ignore_case(s, "on") {
        Some(true)
    } else {
        None
    }
}

/// Parses a count setting.
pub fn parse_usize(s: &str) -> (r: Option<usize>)
    ensures
        r == parse_usize_spec(s@),
{
    match parse_i32(s) {
        Some(n) => if n < 0 { Some(usize::MAX) } else { Some(n as usize) },
        None => None,
    }
}

/// Parses a timeout setting, in milliseconds.
pub fn parse_duration(s: &str) -> (r: Option<u64>)
    ensures
        r == parse_duration_spec(s@),
{
    match parse_i32(s) {
        Some(n) => if n <= 0 { None } else { Some(n as u64) },
        None => None,
    }
}

/// A count as an `i32`, or `-1` beyond its range.
pub fn usize_as_i32(u: usize) -> (r: i32)
    ensures
        r == usize_as_i32_spec(u),
{
    if u > 2147483647 { -1 } else { u as i32 }
}

/// A timeout as an `i32` number of milliseconds, or `-1` for none.
pub fn as_millis(t: Option<u64>) -> (r: i32)
    requires
        t is Some ==> t.unwrap() <= i32::MAX,
    ensures
        r == as_millis_spec(t),
{
    match t {
        Some(ms) => {
            let s = (ms / 1000 * 1000) as i32;
            let m = (ms % 1000) as i32;
            s + m
        },
        None => -1i32,
    }
}

/// The variables of a `Variables` and their values, one after the other.
#[derive(Clone)]
pub struct VariableIter<'a> {
    vars: &'a Variables,
    n: usize,
}

impl<'a> VariableIter<'a> {
    /// The variables walked.
    pub closed spec fn vars(&self) -> &'a Variables {
        self.vars
    }

    /// The number of variables already given.
    pub closed spec fn position(&self) -> int {
        self.n as int
    }

    /// The name and value of the next variable, or `None` after the last.
    pub fn next(&mut self) -> (r: Option<(&'static str, Variable)>)
        requires
            old(self).vars().wf(),
        ensures
            final(self).vars() == old(self).vars(),
            old(self).position() < NUM_VARIABLES ==> {
                &&& r is Some
                &&& r.unwrap().0@ == var_name(old(self).position())
                &&& r.unwrap().1@ == old(self).vars()@.value_of(old(self).position())
                &&& final(self).position() == old(self).position() + 1
            },
            old(self).position() >= NUM_VARIABLES ==> r is None && final(self).position() == old(self).position(),
    {
        if self.n >= NUM_VARIABLES {
            return None;
        }
        let name = variable_name(self.n);
        let value = self.vars.value_at(self.n);
        self.n = self.n + 1;
        Some((name, value))
    }
}

/// The value that variable number `i` reads as after it was set from `value`.
pub open spec fn value_set_from(i: int, value: Seq<char>) -> VariableView {
    if i == 1 {
        VariableView::Text(value)
    } else if i == 2 || i == 3 {
        VariableView::Integer(usize_as_i32_spec(parse_usize_spec(value).unwrap()))
    } else if i == 6 {
        VariableView::Integer(as_millis_spec(parse_duration_spec(value)))
    } else {
        VariableView::Boolean(parse_bool_spec(value).unwrap())
    }
}

/// A variable reads back what it was set to, and setting one variable leaves
/// the others as they were.
pub proof fn lemma_set_then_get(v: VarsView, i: int, value: Seq<char>)
    requires
        0 <= i < NUM_VARIABLES,
        v.set(i, value) is Some,
    ensures
        v.set(i, value).unwrap().value_of(i) == value_set_from(i, value),
        forall|j: int| 0 <= j < NUM_VARIABLES && j != i ==> v.set(i, value).unwrap().value_of(j) == v.value_of(j),
{
}

/// The variables have distinct names, so the name that the iteration gives
/// for a variable finds that variable again.
pub proof fn lemma_names_distinct(i: int)
    requires
        0 <= i < NUM_VARIABLES,
    ensures
        var_index(var_name(i)) == Some(i),
{
    reveal_strlit("blink-matching-paren");
    reveal_strlit("comment-begin");
    reveal_strlit("completion-display-width");
    reveal_strlit("completion-query-items");
    reveal_strlit("disable-completion");
    reveal_strlit("echo-control-characters");
    reveal_strlit("keyseq-timeout");
    reveal_strlit("page-completions");
    reveal_strlit("print-completions-horizontally");
    assert(var_name(0).len() == 20);
    assert(var_name(1).len() == 13);
    assert(var_name(2).len() == 24);
    assert(var_name(3).len() == 22);
    assert(var_name(4).len() == 18);
    assert(var_name(5).len() == 23);
    assert(var_name(6).len() == 14);
    assert(var_name(7).len() == 16);
    assert(var_name(8).len() == 30);
}

/// Setting a variable to the text that displays its value (as `get` and
/// `to_text` give it) leaves the value it reads as unchanged. (A timeout of
/// zero milliseconds, which no setting makes, reads back as none.)
pub proof fn lemma_set_to_displayed(v: VarsView, i: int)
    requires
        0 <= i < NUM_VARIABLES,
        v.wf(),
        v.keyseq_timeout != Some(0u64),
    ensures
        v.set(i, variable_text(v.value_of(i))) is Some,
        v.set(i, variable_text(v.value_of(i))).unwrap().value_of(i) == v.value_of(i),
{
    reveal_strlit("on");
    reveal_strlit("off");
    reveal_strlit("0");
    reveal_strlit("1");
    let x = v.value_of(i);
    match x {
        VariableView::Integer(n) => {
            lemma_decimal_roundtrip(n as int);
            assert(parse_i32_spec(decimal(n as int)) == Some(n));
        },
        _ => {},
    }
}

} // verus!
