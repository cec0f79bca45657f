//! Parses configuration files in the format of GNU Readline `inputrc`.
use vstd::prelude::*;

use crate::linefeed::chars::char_name_seq;
use crate::linefeed::chars::ctrl_of;
use crate::linefeed::chars::lowercase;
use crate::linefeed::chars::ESCAPE;
use crate::linefeed::command::command_from_name;
use crate::linefeed::command::CommandView;
use crate::text::is_ws;
use crate::text::trim;
use crate::text::trim_start;
use crate::text::string_from_vec;
use crate::text::vec_eq;
use crate::text::trimmed;
use crate::linefeed::command::Command;

verus! {

// ---------------------------------------------------------------------
// Model
// ---------------------------------------------------------------------

/// Model of a parsed configuration directive.
pub enum DirectiveView {
    /// Bind construct; `"input-sequence": command-or-macro`
    Bind(Seq<char>, CommandView),
    /// Conditional construct
    Conditional {
        name: Option<Seq<char>>,
        value: Seq<char>,
        then_group: Seq<DirectiveView>,
        else_group: Seq<DirectiveView>,
    },
    /// Set variable; `set name value`
    SetVariable(Seq<char>, Seq<char>),
}

/// Model of an element of a parsed file: a directive, or an `$include`
/// line naming another file.
pub enum ItemView {
    Directive(DirectiveView),
    Include(Seq<char>),
}

/// What went wrong on a line of the configuration text.
#[derive(Copy, Clone, Debug, PartialEq, Eq, Structural)]
pub enum ParseErrorKind {
    /// `missing $endif directive`
    MissingEndif,
    /// `duplicate $else directive`
    DuplicateElse,
    /// `$else without matching $if directive`
    ElseWithoutIf,
    /// `$endif without matching $if directive`
    EndifWithoutIf,
    /// `invalid directive`
    InvalidDirective,
}

/// A diagnostic: the number of lines read when it was found, and its kind.
#[derive(Copy, Clone, Debug, PartialEq, Eq, Structural)]
pub struct ParseMessage {
    pub line: usize,
    pub kind: ParseErrorKind,
}

impl ParseErrorKind {
    /// The message that reports this error.
    pub fn message(&self) -> (m: &'static str)
        ensures
            m@ == (match self {
                ParseErrorKind::MissingEndif => "missing $endif directive"@,
                ParseErrorKind::DuplicateElse => "duplicate $else directive"@,
                ParseErrorKind::ElseWithoutIf => "$else without matching $if directive"@,
                ParseErrorKind::EndifWithoutIf => "$endif without matching $if directive"@,
                ParseErrorKind::InvalidDirective => "invalid directive"@,
            }),
    {
        match self {
            ParseErrorKind::MissingEndif => "missing $endif directive",
            ParseErrorKind::DuplicateElse => "duplicate $else directive",
            ParseErrorKind::ElseWithoutIf => "$else without matching $if directive",
            ParseErrorKind::EndifWithoutIf => "$endif without matching $if directive",
            ParseErrorKind::InvalidDirective => "invalid directive",
        }
    }
}

/// Model of a token of an `inputrc` line.
pub enum TokenView {
    Colon,
    Equal,
    Special(Seq<char>),
    Str(Seq<char>),
    Word(Seq<char>),
    Invalid,
}

/// Position of the first `'\n'` in `t`.
pub open spec fn newline_index(t: Seq<char>) -> Option<int>
    decreases t.len(),
{
    if t.len() == 0 {
        None
    } else if t[0] == '\n' {
        Some(0)
    } else {
        match newline_index(t.drop_first()) {
            Some(i) => Some(i + 1),
            None => None,
        }
    }
}

/// A line without its `'\r'` terminator.
pub open spec fn strip_cr(l: Seq<char>) -> Seq<char> {
    if l.len() > 0 && l.last() == '\r' {
        l.drop_last()
    } else {
        l
    }
}

/// The lines of `t`, as `str::lines` yields them: split at `"\n"` or
/// `"\r\n"`, with no empty line after a final line ending.
pub open spec fn text_lines(t: Seq<char>) -> Seq<Seq<char>>
    decreases t.len(),
{
    if t.len() == 0 {
        seq![]
    } else {
        match newline_index(t) {
            Some(i) => {
                proof {
                    lemma_newline_index(t);
                }
                seq![strip_cr(t.take(i))] + text_lines(t.skip(i + 1))
            },
            None => seq![t],
        }
    }
}

/// `newline_index` finds a newline inside the text.
pub proof fn lemma_newline_index(t: Seq<char>)
    ensures
        match newline_index(t) {
            Some(i) => 0 <= i < t.len() && t[i] == '\n' && forall|k: int|
                0 <= k < i ==> t[k] != '\n',
            None => forall|k: int| 0 <= k < t.len() ==> t[k] != '\n',
        },
    decreases t.len(),
{
    if t.len() > 0 {
        lemma_newline_index(t.drop_first());
        if t[0] != '\n' {
            match newline_index(t.drop_first()) {
                Some(i) => {
                    assert forall|k: int| 0 <= k < i + 1 implies t[k] != '\n' by {
                        if k > 0 {
                            assert(t[k] == t.drop_first()[k - 1]);
                        }
                    }
                },
                None => {
                    assert forall|k: int| 0 <= k < t.len() implies t[k] != '\n' by {
                        if k > 0 {
                            assert(t[k] == t.drop_first()[k - 1]);
                        }
                    }
                },
            }
        }
    }
}

/// Value of a hexadecimal digit.
pub open spec fn hex_val(c: char) -> Option<u32> {
    if '0' <= c && c <= '9' {
        Some((c as u32 - '0' as u32) as u32)
    } else if 'a' <= c && c <= 'f' {
        Some((c as u32 - 'a' as u32 + 10) as u32)
    } else if 'A' <= c && c <= 'F' {
        Some((c as u32 - 'A' as u32 + 10) as u32)
    } else {
        None
    }
}

/// Value of an octal digit.
pub open spec fn oct_val(c: char) -> Option<u32> {
    if '0' <= c && c <= '7' {
        Some((c as u32 - '0' as u32) as u32)
    } else {
        None
    }
}

/// Number of leading hexadecimal digits of `s`, at most `max`.
pub open spec fn hex_run(s: Seq<char>, max: nat) -> nat
    decreases max,
{
    if max == 0 || s.len() == 0 || hex_val(s[0]) is None {
        0
    } else {
        1 + hex_run(s.drop_first(), (max - 1) as nat)
    }
}

/// Value of the hexadecimal numeral `s[..k]`.
pub open spec fn hex_num(s: Seq<char>, k: nat) -> nat
    decreases k,
{
    if k == 0 {
        0
    } else {
        hex_num(s, (k - 1) as nat) * 16 + match hex_val(s[k - 1]) {
            Some(d) => d as nat,
            None => 0,
        }
    }
}

/// Whether `n` is the code of a `char` (a Unicode scalar value).
pub open spec fn is_scalar(n: nat) -> bool {
    n <= 0x10FFFF && !(0xD800 <= n <= 0xDFFF)
}

/// The escape sequence starting at `s` (just after a backslash): the text
/// it stands for and the number of characters it spans.
pub open spec fn escape_of(s: Seq<char>) -> Option<(Seq<char>, int)> {
    if s.len() == 0 {
        None
    } else {
        let c = s[0];
        if c == 'C' {
            if s.len() >= 3 && s[1] == '-' {
                Some((seq![ctrl_of(s[2]) as char], 3))
            } else {
                None
            }
        } else if c == 'M' {
            if s.len() >= 3 && s[1] == '-' {
                Some((seq![ESCAPE, s[2]], 3))
            } else {
                None
            }
        } else if c == 'e' {
            Some((seq!['\x1b'], 1))
        } else if c == '\\' || c == '"' || c == '\'' {
            Some((seq![c], 1))
        } else if c == 'a' {
            Some((seq!['\x07'], 1))
        } else if c == 'b' {
            Some((seq!['\x08'], 1))
        } else if c == 'd' {
            Some((seq!['\x7f'], 1))
        } else if c == 'f' {
            Some((seq!['\x0c'], 1))
        } else if c == 'n' {
            Some((seq!['\n'], 1))
        } else if c == 'r' {
            Some((seq!['\r'], 1))
        } else if c == 't' {
            Some((seq!['\t'], 1))
        } else if c == 'u' {
            if s.len() >= 2 && s[1] == '{' {
                let k = hex_run(s.skip(2), 6) as int;
                let n = hex_num(s.skip(2), k as nat);
                if 2 + k < s.len() && s[2 + k] == '}' && is_scalar(n) {
                    Some((seq![(n as u32) as char], 3 + k))
                } else {
                    None
                }
            } else {
                None
            }
        } else if c == 'v' {
            Some((seq!['\x0b'], 1))
        } else if c == 'x' {
            if s.len() >= 3 && hex_val(s[1]) is Some && hex_val(s[2]) is Some {
                Some((seq![((hex_val(s[1])->0 * 16 + hex_val(s[2])->0) as u32) as char], 3))
            } else {
                None
            }
        } else if '0' <= c && c <= '3' {
            if s.len() >= 3 && oct_val(s[1]) is Some && oct_val(s[2]) is Some {
                Some(
                    (
                        seq![
                            (((c as u32 - '0' as u32) * 64 + oct_val(s[1])->0 * 8 + oct_val(
                                s[2],
                            )->0) as u32) as char,
                        ],
                        3,
                    ),
                )
            } else {
                None
            }
        } else {
            None
        }
    }
}

/// `hex_run` stays within its bounds.
pub proof fn lemma_hex_run(s: Seq<char>, max: nat)
    ensures
        hex_run(s, max) <= max,
        hex_run(s, max) <= s.len(),
    decreases max,
{
    if !(max == 0 || s.len() == 0 || hex_val(s[0]) is None) {
        lemma_hex_run(s.drop_first(), (max - 1) as nat);
    }
}

/// An escape sequence spans at least one character of its input.
pub proof fn lemma_escape_len(s: Seq<char>)
    ensures
        escape_of(s) matches Some((e, k)) ==> 1 <= k <= s.len(),
{
    if s.len() > 0 && s[0] == 'u' && s.len() >= 2 {
        lemma_hex_run(s.skip(2), 6);
    }
}

/// The double-quoted string starting at `s` (after the opening quote), with
/// `acc` already collected: the token and the text after it.
pub open spec fn quoted(s: Seq<char>, acc: Seq<char>) -> (TokenView, Seq<char>)
    decreases s.len(),
{
    if s.len() == 0 {
        (TokenView::Invalid, seq![])
    } else if s[0] == '"' {
        (TokenView::Str(acc), s.drop_first())
    } else if s[0] == '\\' {
        match escape_of(s.drop_first()) {
            Some((e, k)) => {
                proof {
                    lemma_escape_len(s.drop_first());
                }
                quoted(s.skip(1 + k), acc + e)
            },
            None => (TokenView::Invalid, seq![]),
        }
    } else {
        quoted(s.drop_first(), acc.push(s[0]))
    }
}

/// Whether `c` ends a bare word.
pub open spec fn word_stop(c: char) -> bool {
    c == ':' || c == '"' || c == '=' || is_ws(c)
}

/// Length of the bare word at the start of `s`.
pub open spec fn word_len(s: Seq<char>) -> nat
    decreases s.len(),
{
    if s.len() == 0 || word_stop(s[0]) {
        0
    } else {
        1 + word_len(s.drop_first())
    }
}

/// The next token of the line `l` and the remaining text, with its leading
/// whitespace removed.
pub open spec fn next_token(l: Seq<char>) -> Option<(TokenView, Seq<char>)> {
    if l.len() == 0 {
        None
    } else {
        let c = l[0];
        if c == ':' {
            Some((TokenView::Colon, trim_start(l.skip(1))))
        } else if c == '=' {
            Some((TokenView::Equal, trim_start(l.skip(1))))
        } else if c == '$' {
            let r = l.skip(1);
            let w = word_len(r);
            Some((TokenView::Special(r.take(w as int)), trim_start(r.skip(w as int))))
        } else if c == '"' {
            let q = quoted(l.skip(1), seq![]);
            Some((q.0, trim_start(q.1)))
        } else {
            let w = word_len(l);
            Some((TokenView::Word(l.take(w as int)), trim_start(l.skip(w as int))))
        }
    }
}

/// Parser state: the number of lines read and the diagnostics so far.
pub struct PState {
    pub pos: int,
    pub msgs: Seq<ParseMessage>,
}

/// `st` with a diagnostic of kind `k` at the current line.
pub open spec fn report(st: PState, k: ParseErrorKind) -> PState {
    PState { pos: st.pos, msgs: st.msgs.push(ParseMessage { line: st.pos as usize, kind: k }) }
}

/// The text after the token following `r`, if that token is a bare word.
pub open spec fn word_after(r: Seq<char>) -> Option<Seq<char>> {
    match next_token(r) {
        Some((TokenView::Word(w), _)) => Some(w),
        _ => None,
    }
}

/// The right-hand side of a binding: a command name or a quoted macro.
pub open spec fn binding_target(r: Seq<char>) -> Option<CommandView> {
    match next_token(r) {
        Some((TokenView::Word(v), _)) => Some(command_from_name(v)),
        Some((TokenView::Str(m), _)) => Some(CommandView::Macro(m)),
        _ => None,
    }
}

/// The text following a `:` token at the start of `r`.
pub open spec fn after_colon(r: Seq<char>) -> Option<Seq<char>> {
    match next_token(r) {
        Some((TokenView::Colon, r2)) => Some(r2),
        _ => None,
    }
}

/// The `name` and `value` of a `$if` line, given the text after `$if`.
pub open spec fn if_condition(r1: Seq<char>) -> Option<(Option<Seq<char>>, Seq<char>)> {
    match next_token(r1) {
        Some((TokenView::Word(name), r2)) => match next_token(r2) {
            Some((TokenView::Equal, r3)) => match next_token(r3) {
                Some((TokenView::Word(v), _)) => Some((Some(name), v)),
                None => Some((Some(name), seq![])),
                _ => None,
            },
            None => Some((None, name)),
            _ => None,
        },
        _ => None,
    }
}

/// Parses the single-line directive `line` (directives other than `$if`).
pub open spec fn simple_directive(line: Seq<char>) -> Option<DirectiveView> {
    match next_token(line) {
        Some((TokenView::Str(sq), r1)) => match after_colon(r1) {
            Some(r2) => match binding_target(r2) {
                Some(c) => Some(DirectiveView::Bind(sq, c)),
                None => None,
            },
            None => None,
        },
        Some((TokenView::Word(w), r1)) => {
            if w == "set"@ {
                match next_token(r1) {
                    Some((TokenView::Word(name), r2)) => match next_token(r2) {
                        Some((TokenView::Str(v), _)) => Some(DirectiveView::SetVariable(name, v)),
                        Some((TokenView::Word(_), _)) => Some(DirectiveView::SetVariable(name, r2)),
                        _ => None,
                    },
                    _ => None,
                }
            } else {
                match after_colon(r1) {
                    Some(r2) => match char_name_seq(lowercase(w)) {
                        Some(sq) => match binding_target(r2) {
                            Some(c) => Some(DirectiveView::Bind(sq, c)),
                            None => None,
                        },
                        None => None,
                    },
                    None => None,
                }
            }
        },
        _ => None,
    }
}

/// The text after the first token of `line`.
pub open spec fn rest_after_token(line: Seq<char>) -> Seq<char> {
    match next_token(line) {
        Some((_, r)) => r,
        None => seq![],
    }
}

/// Whether the line starts with the special word `w` (as in `$w`).
pub open spec fn starts_special(line: Seq<char>, w: Seq<char>) -> bool {
    match next_token(line) {
        Some((TokenView::Special(x), _)) => x == w,
        _ => false,
    }
}

/// The line at position `i`, trimmed.
pub open spec fn trimmed_line(ls: Seq<Seq<char>>, i: int) -> Seq<char> {
    trim(ls[i])
}

/// Whether a line is a comment.
pub open spec fn is_comment(line: Seq<char>) -> bool {
    line.len() > 0 && line[0] == '#'
}

/// The state after a nested parse returned `st2`, given the state `st`
/// before it: the nested parse never moves backwards.
pub open spec fn resume(ls: Seq<Seq<char>>, st: PState, st2: PState) -> PState {
    if st.pos <= st2.pos <= ls.len() {
        st2
    } else {
        st
    }
}

/// Parses `line`, the line just read; a `$if` line also reads its body.
/// Returns the directive, if any, and the new state.
pub open spec fn parse_line_spec(ls: Seq<Seq<char>>, st: PState, line: Seq<char>) -> (
    Option<DirectiveView>,
    PState,
)
    decreases ls.len() - st.pos, 1int,
{
    match next_token(line) {
        None => (None, st),
        Some((TokenView::Special(w), r1)) => {
            if w == "if"@ {
                match if_condition(r1) {
                    Some((name, value)) => {
                        let c = parse_cond_spec(ls, st, false, seq![], seq![]);
                        (
                            Some(
                                DirectiveView::Conditional {
                                    name,
                                    value,
                                    then_group: c.0,
                                    else_group: c.1,
                                },
                            ),
                            c.2,
                        )
                    },
                    None => (None, report(st, ParseErrorKind::InvalidDirective)),
                }
            } else if w == "else"@ {
                (None, report(st, ParseErrorKind::ElseWithoutIf))
            } else if w == "endif"@ {
                (None, report(st, ParseErrorKind::EndifWithoutIf))
            } else {
                (None, report(st, ParseErrorKind::InvalidDirective))
            }
        },
        Some(_) => match simple_directive(line) {
            Some(d) => (Some(d), st),
            None => (None, report(st, ParseErrorKind::InvalidDirective)),
        },
    }
}

/// Parses the body of a conditional from the state `st`, with `pe` telling
/// whether `$else` was seen and `th`, `el` the groups collected so far.
pub open spec fn parse_cond_spec(
    ls: Seq<Seq<char>>,
    st: PState,
    pe: bool,
    th: Seq<DirectiveView>,
    el: Seq<DirectiveView>,
) -> (Seq<DirectiveView>, Seq<DirectiveView>, PState)
    decreases ls.len() - st.pos, 0int,
{
    if st.pos >= ls.len() || st.pos < 0 {
        (th, el, report(st, ParseErrorKind::MissingEndif))
    } else {
        let line = trimmed_line(ls, st.pos);
        let st1 = PState { pos: st.pos + 1, msgs: st.msgs };
        if is_comment(line) || next_token(line) is None {
            parse_cond_spec(ls, st1, pe, th, el)
        } else if starts_special(line, "else"@) {
            if pe {
                parse_cond_spec(ls, report(st1, ParseErrorKind::DuplicateElse), pe, th, el)
            } else {
                parse_cond_spec(ls, st1, true, th, el)
            }
        } else if starts_special(line, "endif"@) {
            (th, el, st1)
        } else {
            let r = parse_line_spec(ls, st1, line);
            let st2 = resume(ls, st1, r.1);
            match r.0 {
                Some(d) => if pe {
                    parse_cond_spec(ls, st2, pe, th, el.push(d))
                } else {
                    parse_cond_spec(ls, st2, pe, th.push(d), el)
                },
                None => parse_cond_spec(ls, st2, pe, th, el),
            }
        }
    }
}

/// Parses the lines from the state `st` to the end, after `items`.
pub open spec fn parse_spec(ls: Seq<Seq<char>>, st: PState, items: Seq<ItemView>) -> (
    Seq<ItemView>,
    PState,
)
    decreases ls.len() - st.pos,
{
    if st.pos >= ls.len() || st.pos < 0 {
        (items, st)
    } else {
        let line = trimmed_line(ls, st.pos);
        let st1 = PState { pos: st.pos + 1, msgs: st.msgs };
        if is_comment(line) {
            parse_spec(ls, st1, items)
        } else if starts_special(line, "include"@) {
            parse_spec(ls, st1, items.push(ItemView::Include(rest_after_token(line))))
        } else {
            let r = parse_line_spec(ls, st1, line);
            let st2 = resume(ls, st1, r.1);
            match r.0 {
                Some(d) => parse_spec(ls, st2, items.push(ItemView::Directive(d))),
                None => parse_spec(ls, st2, items),
            }
        }
    }
}


// ---------------------------------------------------------------------
// Tokens
// ---------------------------------------------------------------------

/// A token of an `inputrc` line.
pub enum Token {
    /// Colon; `:`
    Colon,
    /// Equal; `=`
    Equal,
    /// Conditional or other special directive; `$word`
    SpecialWord(Vec<char>),
    /// Double-quoted string; `"foo"`
    Str(Vec<char>),
    /// Bare word; `foo`
    Word(Vec<char>),
    /// Invalid token
    Invalid,
}

impl View for Token {
    type V = TokenView;

    open spec fn view(&self) -> TokenView {
        match self {
            Token::Colon => TokenView::Colon,
            Token::Equal => TokenView::Equal,
            Token::SpecialWord(w) => TokenView::Special(w@),
            Token::Str(w) => TokenView::Str(w@),
            Token::Word(w) => TokenView::Word(w@),
            Token::Invalid => TokenView::Invalid,
        }
    }
}

/// Value of a hexadecimal digit.
fn hex_digit(c: char) -> (r: Option<u32>)
    ensures
        r == hex_val(c),
{
    if '0' <= c && c <= '9' {
        Some(c as u32 - '0' as u32)
    } else if 'a' <= c && c <= 'f' {
        Some(c as u32 - 'a' as u32 + 10)
    } else if 'A' <= c && c <= 'F' {
        Some(c as u32 - 'A' as u32 + 10)
    } else {
        None
    }
}

/// Value of an octal digit.
fn oct_digit(c: char) -> (r: Option<u32>)
    ensures
        r == oct_val(c),
{
    if '0' <= c && c <= '7' {
        Some(c as u32 - '0' as u32)
    } else {
        None
    }
}

/// Converts a code point to a `char`.
///
/// Calls `char::from_u32`, which returns `Some` exactly for Unicode scalar
/// values.
#[verifier::external_body]
fn char_from_u32(n: u32) -> (r: Option<char>)
    ensures
        is_scalar(n as nat) ==> r == Some(n as char),
        !is_scalar(n as nat) ==> r is None,
{
    char::from_u32(n)
}

/// `16^k`.
pub open spec fn pow16(k: nat) -> nat
    decreases k,
{
    if k == 0 {
        1
    } else {
        16 * pow16((k - 1) as nat)
    }
}

/// `16^k` fits in 24 bits for `k <= 6`.
proof fn lemma_pow16_bound(k: nat)
    requires
        k <= 6,
    ensures
        pow16(k) <= 16777216,
{
    reveal_with_fuel(pow16, 7);
}

/// Parses the escape sequence starting at `l[i]`, just after a backslash.
/// Returns the text it stands for and the index just past it.
fn parse_escape(l: &Vec<char>, i: usize) -> (r: Option<(Vec<char>, usize)>)
    requires
        i <= l@.len(),
    ensures
        match escape_of(l@.skip(i as int)) {
            Some((e, k)) => r matches Some((v, j)) && v@ == e && j == i + k,
            None => r is None,
        },
{
    let ghost s = l@.skip(i as int);
    let n = l.len();
    if i >= n {
        return None;
    }
    let c = l[i];
    let mut out: Vec<char> = Vec::new();
    if c == 'C' || c == 'M' {
        if n - i > 2 && l[i + 1] == '-' {
            if c == 'C' {
                out.push(crate::linefeed::chars::ctrl(l[i + 2]));
                proof {
                    vstd::utf8::char_u32_cast(out@[0], ctrl_of(l@[i + 2]));
                }
            } else {
                out.push(ESCAPE);
                out.push(l[i + 2]);
            }
            proof {
                assert(s[1] == l@[i + 1]);
                assert(s[2] == l@[i + 2]);
            }
            return Some((out, i + 3));
        }
        return None;
    }
    let simple = if c == 'e' {
        Some('\x1b')
    } else if c == '\\' || c == '"' || c == '\'' {
        Some(c)
    } else if c == 'a' {
        Some('\x07')
    } else if c == 'b' {
        Some('\x08')
    } else if c == 'd' {
        Some('\x7f')
    } else if c == 'f' {
        Some('\x0c')
    } else if c == 'n' {
        Some('\n')
    } else if c == 'r' {
        Some('\r')
    } else if c == 't' {
        Some('\t')
    } else if c == 'v' {
        Some('\x0b')
    } else {
        None
    };
    if let Some(e) = simple {
        out.push(e);
        return Some((out, i + 1));
    }
    if c == 'u' {
        if !(n - i > 1 && l[i + 1] == '{') {
            return None;
        }
        let ghost t = s.skip(2);
        let mut k: usize = 0;
        let mut v: u32 = 0;
        proof {
            assert(t.skip(0) =~= t);
        }
        while k < 6 && k < n - i - 2
            invariant
                i + 2 <= n,
                n == l@.len(),
                s == l@.skip(i as int),
                t == s.skip(2),
                k <= 6,
                v == hex_num(t, k as nat),
                v < pow16(k as nat),
                hex_run(t, 6) == k + hex_run(t.skip(k as int), (6 - k) as nat),
                t.len() == n - i - 2,
                k <= n - i - 2,
            ensures
                hex_run(t, 6) == k,
                v == hex_num(t, k as nat),
                k <= n - i - 2,
            decreases 6 - k,
        {
            match hex_digit(l[i + 2 + k]) {
                Some(d) => {
                    proof {
                        lemma_pow16_bound(k as nat);
                    }
                    proof {
                        assert(t.skip(k as int)[0] == l@[i + 2 + k]);
                        assert(t.skip(k as int).drop_first() =~= t.skip(k + 1));
                        assert(t[k as int] == l@[i + 2 + k]);
                    }
                    v = v * 16 + d;
                    k = k + 1;
                },
                None => {
                    proof {
                        assert(t.skip(k as int)[0] == l@[i + 2 + k]);
                        assert(hex_run(t.skip(k as int), (6 - k) as nat) == 0);
                    }
                    break;
                },
            }
        }
        if !(k < n - i - 2 && l[i + 2 + k] == '}') {
            return None;
        }
        match char_from_u32(v) {
            Some(ch) => {
                out.push(ch);
                return Some((out, i + 3 + k));
            },
            None => {
                return None;
            },
        }
    }
    if c == 'x' {
        if !(n - i > 2) {
            return None;
        }
        match (hex_digit(l[i + 1]), hex_digit(l[i + 2])) {
            (Some(a), Some(b)) => {
                let code: u32 = a * 16 + b;
                let ch = (code as u8) as char;
                proof {
                    assert(s[1] == l@[i + 1]);
                    assert(s[2] == l@[i + 2]);
                    vstd::utf8::char_u32_cast(ch, code);
                }
                out.push(ch);
                return Some((out, i + 3));
            },
            _ => {
                proof {
                    assert(s[1] == l@[i + 1]);
                    assert(s[2] == l@[i + 2]);
                }
                return None;
            },
        }
    }
    if '0' <= c && c <= '3' {
        if !(n - i > 2) {
            return None;
        }
        match (oct_digit(l[i + 1]), oct_digit(l[i + 2])) {
            (Some(a), Some(b)) => {
                let code: u32 = (c as u32 - '0' as u32) * 64 + a * 8 + b;
                let ch = (code as u8) as char;
                proof {
                    assert(s[1] == l@[i + 1]);
                    assert(s[2] == l@[i + 2]);
                    vstd::utf8::char_u32_cast(ch, code);
                }
                out.push(ch);
                return Some((out, i + 3));
            },
            _ => {
                proof {
                    assert(s[1] == l@[i + 1]);
                    assert(s[2] == l@[i + 2]);
                }
                return None;
            },
        }
    }
    None
}


/// Parses the double-quoted string whose opening quote is at `l[i]`.
/// Returns the token and the index just past it (the end of the line
/// for an invalid string).
fn parse_string(l: &Vec<char>, i: usize) -> (r: (Token, usize))
    requires
        i < l@.len(),
    ensures
        r.1 <= l@.len(),
        r.0@ == quoted(l@.skip(i + 1), seq![]).0,
        l@.skip(r.1 as int) == quoted(l@.skip(i + 1), seq![]).1,
{
    let n = l.len();
    let mut res: Vec<char> = Vec::new();
    let mut k = i + 1;
    while k < n
        invariant
            n == l@.len(),
            i + 1 <= k <= n,
            quoted(l@.skip(i + 1), seq![]) == quoted(l@.skip(k as int), res@),
        decreases n - k,
    {
        let ghost sk = l@.skip(k as int);
        let c = l[k];
        proof {
            assert(sk[0] == c);
        }
        if c == '"' {
            proof {
                assert(sk.drop_first() =~= l@.skip(k + 1));
            }
            return (Token::Str(res), k + 1);
        } else if c == '\\' {
            proof {
                assert(sk.drop_first() =~= l@.skip(k + 1));
            }
            match parse_escape(l, k + 1) {
                Some((e, j)) => {
                    proof {
                        lemma_escape_len(l@.skip(k + 1));
                        assert(sk.skip(1 + (j - k - 1)) =~= l@.skip(j as int));
                    }
                    let mut t: usize = 0;
                    let ghost res0 = res@;
                    while t < e.len()
                        invariant
                            0 <= t <= e@.len(),
                            res@ == res0 + e@.take(t as int),
                        decreases e@.len() - t,
                    {
                        res.push(e[t]);
                        proof {
                            assert(e@.take(t + 1) =~= e@.take(t as int).push(e@[t as int]));
                        }
                        t = t + 1;
                    }
                    proof {
                        assert(e@.take(e@.len() as int) =~= e@);
                    }
                    k = j;
                },
                None => {
                    proof {
                        assert(l@.skip(n as int) =~= Seq::<char>::empty());
                    }
                    return (Token::Invalid, n);
                },
            }
        } else {
            res.push(c);
            proof {
                assert(sk.drop_first() =~= l@.skip(k + 1));
            }
            k = k + 1;
        }
    }
    proof {
        assert(l@.skip(k as int) =~= Seq::<char>::empty());
        assert(l@.skip(n as int) =~= Seq::<char>::empty());
    }
    (Token::Invalid, n)
}

/// Index just past the bare word starting at `l[i]`.
fn word_end(l: &Vec<char>, i: usize) -> (j: usize)
    requires
        i <= l@.len(),
    ensures
        j == i + word_len(l@.skip(i as int)),
        j <= l@.len(),
{
    let n = l.len();
    let mut j = i;
    while j < n && !(l[j] == ':' || l[j] == '"' || l[j] == '=' || crate::text::is_whitespace(l[j]))
        invariant
            n == l@.len(),
            i <= j <= n,
            word_len(l@.skip(i as int)) == (j - i) + word_len(l@.skip(j as int)),
        decreases n - j,
    {
        proof {
            assert(l@.skip(j as int).drop_first() =~= l@.skip(j + 1));
        }
        j = j + 1;
    }
    proof {
        if j < n {
            assert(l@.skip(j as int)[0] == l@[j as int]);
        }
    }
    j
}

/// The next token of `l[i..]`, and the index of the remaining text after
/// leading whitespace.
fn next_token_at(l: &Vec<char>, i: usize) -> (r: Option<(Token, usize)>)
    requires
        i <= l@.len(),
    ensures
        match next_token(l@.skip(i as int)) {
            Some((t, rest)) => r matches Some((tok, j)) && tok@ == t && j <= l@.len() && l@.skip(
                j as int,
            ) == rest,
            None => r is None,
        },
{
    let n = l.len();
    if i >= n {
        return None;
    }
    let ghost s = l@.skip(i as int);
    let c = l[i];
    proof {
        assert(s[0] == c);
        assert(s.skip(1) =~= l@.skip(i + 1));
    }
    if c == ':' || c == '=' {
        let j = crate::text::skip_ws(l, i + 1, n);
        proof {
            assert(l@.subrange(i + 1, n as int) =~= l@.skip(i + 1));
            assert(l@.subrange(j as int, n as int) =~= l@.skip(j as int));
        }
        if c == ':' {
            return Some((Token::Colon, j));
        } else {
            return Some((Token::Equal, j));
        }
    }
    if c == '$' {
        let e = word_end(l, i + 1);
        let w = crate::text::copy_range(l, i + 1, e);
        let j = crate::text::skip_ws(l, e, n);
        proof {
            assert(s.skip(1).take(word_len(s.skip(1)) as int) =~= l@.subrange(i + 1, e as int));
            assert(s.skip(1).skip(word_len(s.skip(1)) as int) =~= l@.subrange(e as int, n as int));
            assert(l@.subrange(j as int, n as int) =~= l@.skip(j as int));
        }
        return Some((Token::SpecialWord(w), j));
    }
    if c == '"' {
        let (tok, e) = parse_string(l, i);
        let j = crate::text::skip_ws(l, e, n);
        proof {
            assert(l@.subrange(e as int, n as int) =~= l@.skip(e as int));
            assert(l@.subrange(j as int, n as int) =~= l@.skip(j as int));
        }
        return Some((tok, j));
    }
    let e = word_end(l, i);
    let w = crate::text::copy_range(l, i, e);
    let j = crate::text::skip_ws(l, e, n);
    proof {
        assert(s.take(word_len(s) as int) =~= l@.subrange(i as int, e as int));
        assert(s.skip(word_len(s) as int) =~= l@.subrange(e as int, n as int));
        assert(l@.subrange(j as int, n as int) =~= l@.skip(j as int));
    }
    Some((Token::Word(w), j))
}


// ---------------------------------------------------------------------
// Directives
// ---------------------------------------------------------------------

/// Parsed configuration directive
#[derive(Debug)]
pub enum Directive {
    /// Bind construct; `"input-sequence": command-or-macro`
    Bind(String, Command),
    /// Conditional construct;
    /// (`$if name=value` or `$if value`) *directives*
    /// (optional `$else` *directives*) `$endif`
    Conditional {
        /// Value name; if `None`, value refers to application name
        name: Option<String>,
        /// Value to compare
        value: String,
        /// Group of directives evaluated when condition is true
        then_group: Vec<Directive>,
        /// Group of directives evaluated when condition is false
        else_group: Vec<Directive>,
    },
    /// Set variable; `set name value`
    SetVariable(String, String),
}

/// Model of a directive.
pub open spec fn dir_view(d: Directive) -> DirectiveView
    decreases d,
{
    match d {
        Directive::Bind(s, c) => DirectiveView::Bind(s@, c@),
        Directive::Conditional { name, value, then_group, else_group } => {
            DirectiveView::Conditional {
                name: match name {
                    Some(n) => Some(n@),
                    None => None,
                },
                value: value@,
                then_group: dirs_view(then_group@),
                else_group: dirs_view(else_group@),
            }
        },
        Directive::SetVariable(a, b) => DirectiveView::SetVariable(a@, b@),
    }
}

/// Model of a sequence of directives.
pub open spec fn dirs_view(ds: Seq<Directive>) -> Seq<DirectiveView>
    decreases ds,
{
    if ds.len() == 0 {
        seq![]
    } else {
        dirs_view(ds.subrange(0, ds.len() - 1)).push(dir_view(ds[ds.len() - 1]))
    }
}

/// Model of an optional directive.
pub open spec fn opt_dir_view(d: Option<Directive>) -> Option<DirectiveView> {
    match d {
        Some(d) => Some(dir_view(d)),
        None => None,
    }
}

/// Appending a directive appends its model.
proof fn lemma_dirs_view_push(ds: Seq<Directive>, d: Directive)
    ensures
        dirs_view(ds.push(d)) == dirs_view(ds).push(dir_view(d)),
{
    assert(ds.push(d).subrange(0, ds.len() as int) =~= ds);
}

/// Parses the target of a binding at `l[j..]`: a command name or a macro.
fn parse_target(l: &Vec<char>, j: usize) -> (r: Option<Command>)
    requires
        j <= l@.len(),
    ensures
        match binding_target(l@.skip(j as int)) {
            Some(c) => r matches Some(x) && x@ == c,
            None => r is None,
        },
{
    match next_token_at(l, j) {
        Some((Token::Word(v), _)) => {
            let s = string_from_vec(&v);
            Some(Command::from_string(s.as_str()))
        },
        Some((Token::Str(m), _)) => Some(Command::Macro(string_from_vec(&m))),
        _ => None,
    }
}

/// Index of the text after a `:` token at `l[j..]`.
fn parse_colon(l: &Vec<char>, j: usize) -> (r: Option<usize>)
    requires
        j <= l@.len(),
    ensures
        match after_colon(l@.skip(j as int)) {
            Some(rest) => r matches Some(k) && k <= l@.len() && l@.skip(k as int) == rest,
            None => r is None,
        },
{
    match next_token_at(l, j) {
        Some((Token::Colon, k)) => Some(k),
        _ => None,
    }
}

/// Parses the condition of a `$if` line at `l[j..]`.
fn parse_if_condition(l: &Vec<char>, j: usize) -> (r: Option<(Option<String>, String)>)
    requires
        j <= l@.len(),
    ensures
        match if_condition(l@.skip(j as int)) {
            Some((n, v)) => r matches Some((rn, rv)) && rv@ == v && match rn {
                Some(x) => n == Some(x@),
                None => n is None,
            },
            None => r is None,
        },
{
    match next_token_at(l, j) {
        Some((Token::Word(name), k)) => match next_token_at(l, k) {
            Some((Token::Equal, k2)) => match next_token_at(l, k2) {
                Some((Token::Word(v), _)) => Some(
                    (Some(string_from_vec(&name)), string_from_vec(&v)),
                ),
                None => Some((Some(string_from_vec(&name)), String::new())),
                _ => None,
            },
            None => Some((None, string_from_vec(&name))),
            _ => None,
        },
        _ => None,
    }
}

/// Parses a single-line directive (anything but `$if`).
fn parse_simple(l: &Vec<char>) -> (r: Option<Directive>)
    ensures
        opt_dir_view(r) == simple_directive(l@),
{
    proof {
        assert(l@.skip(0) =~= l@);
    }
    match next_token_at(l, 0) {
        Some((Token::Str(sq), j1)) => match parse_colon(l, j1) {
            Some(j2) => match parse_target(l, j2) {
                Some(c) => Some(Directive::Bind(string_from_vec(&sq), c)),
                None => None,
            },
            None => None,
        },
        Some((Token::Word(w), j1)) => {
            if vec_eq(&w, "set") {
                match next_token_at(l, j1) {
                    Some((Token::Word(name), j2)) => match next_token_at(l, j2) {
                        Some((Token::Str(v), _)) => Some(
                            Directive::SetVariable(string_from_vec(&name), string_from_vec(&v)),
                        ),
                        Some((Token::Word(_), _)) => {
                            let n = l.len();
                            let rest = crate::text::string_of(l.as_slice(), j2, n);
                            proof {
                                assert(l@.subrange(j2 as int, n as int) =~= l@.skip(j2 as int));
                            }
                            Some(Directive::SetVariable(string_from_vec(&name), rest))
                        },
                        _ => None,
                    },
                    _ => None,
                }
            } else {
                match parse_colon(l, j1) {
                    Some(j2) => {
                        let ws = string_from_vec(&w);
                        match crate::linefeed::chars::parse_char_name(ws.as_str()) {
                            Some(sq) => match parse_target(l, j2) {
                                Some(c) => Some(Directive::Bind(sq, c)),
                                None => None,
                            },
                            None => None,
                        }
                    },
                    None => None,
                }
            }
        },
        _ => None,
    }
}

/// An element of a parsed configuration text: a directive, or an
/// `$include` line naming another file.
pub enum Item {
    Directive(Directive),
    Include(String),
}

/// Model of an item.
pub open spec fn item_view(i: Item) -> ItemView {
    match i {
        Item::Directive(d) => ItemView::Directive(dir_view(d)),
        Item::Include(p) => ItemView::Include(p@),
    }
}

/// Model of a sequence of items.
pub open spec fn items_view(s: Seq<Item>) -> Seq<ItemView> {
    s.map_values(|i: Item| item_view(i))
}

/// Model of a sequence of lines.
pub open spec fn lines_view(s: Seq<Vec<char>>) -> Seq<Seq<char>> {
    s.map_values(|v: Vec<char>| v@)
}

/// Parser over the lines of a configuration text.
pub struct Parser {
    lines: Vec<Vec<char>>,
    filename: String,
    line_num: usize,
    msgs: Vec<ParseMessage>,
}

impl Parser {
    /// The lines being parsed.
    pub closed spec fn ls(&self) -> Seq<Seq<char>> {
        lines_view(self.lines@)
    }

    /// The number of lines read and the diagnostics so far.
    pub closed spec fn state(&self) -> PState {
        PState { pos: self.line_num as int, msgs: self.msgs@ }
    }

    /// The name of the text being parsed.
    pub closed spec fn name(&self) -> Seq<char> {
        self.filename@
    }

    /// No more lines have been read than there are.
    pub closed spec fn wf(&self) -> bool {
        self.line_num <= self.lines@.len()
    }

    /// A parser over the lines of `text`, named `filename` in diagnostics.
    pub fn new(filename: &str, text: &str) -> (p: Parser)
        ensures
            p.wf(),
            p.ls() == text_lines(text@),
            p.state() == (PState { pos: 0, msgs: seq![] }),
            p.name() == filename@,
    {
        let t = crate::text::chars_of(text);
        let lines = split_lines(&t);
        Parser {
            lines,
            filename: filename.to_owned(),
            line_num: 0,
            msgs: Vec::new(),
        }
    }

    /// The diagnostics collected so far, in the order they were found.
    pub fn messages(&self) -> (m: &Vec<ParseMessage>)
        ensures
            m@ == self.state().msgs,
    {
        &self.msgs
    }

    /// Records a diagnostic at the current line.
    fn report(&mut self, k: ParseErrorKind)
        ensures
            final(self).state() == report(old(self).state(), k),
            final(self).lines == old(self).lines,
            final(self).filename == old(self).filename,
    {
        let m = ParseMessage { line: self.line_num, kind: k };
        self.msgs.push(m);
    }

    /// Reads the next line, trimmed.
    fn next_line(&mut self) -> (r: Option<Vec<char>>)
        requires
            old(self).wf(),
        ensures
            final(self).wf(),
            final(self).lines == old(self).lines,
            final(self).msgs == old(self).msgs,
            final(self).filename == old(self).filename,
            old(self).line_num < old(self).lines@.len() ==> (r matches Some(l) && l@
                == trimmed_line(old(self).ls(), old(self).line_num as int) && final(self).line_num
                == old(self).line_num + 1),
            old(self).line_num >= old(self).lines@.len() ==> r is None && final(self).line_num
                == old(self).line_num,
    {
        if self.line_num < self.lines.len() {
            let l = trimmed(&self.lines[self.line_num]);
            self.line_num = self.line_num + 1;
            Some(l)
        } else {
            None
        }
    }
}

/// The lines of `t`, as `str::lines` yields them.
fn split_lines(t: &Vec<char>) -> (r: Vec<Vec<char>>)
    ensures
        lines_view(r@) == text_lines(t@),
{
    let n = t.len();
    let mut out: Vec<Vec<char>> = Vec::new();
    let mut start: usize = 0;
    proof {
        assert(t@.skip(0) =~= t@);
        assert(lines_view(out@) + text_lines(t@) =~= text_lines(t@));
    }
    while start < n
        invariant
            n == t@.len(),
            start <= n,
            text_lines(t@) == lines_view(out@) + text_lines(t@.skip(start as int)),
        decreases n - start,
    {
        let ghost rest = t@.skip(start as int);
        let mut i = start;
        while i < n && t[i] != '\n'
            invariant
                start <= i <= n == t@.len(),
                rest == t@.skip(start as int),
                forall|k: int| 0 <= k < i - start ==> rest[k] != '\n',
            decreases n - i,
        {
            i = i + 1;
        }
        if i < n {
            proof {
                lemma_newline_at(rest, i - start);
                assert(rest.take(i - start) =~= t@.subrange(start as int, i as int));
                assert(rest.skip(i - start + 1) =~= t@.skip(i + 1));
            }
            let mut e = i;
            if e > start && t[e - 1] == '\r' {
                e = e - 1;
            }
            let line = crate::text::copy_range(t, start, e);
            proof {
                assert(line@ == strip_cr(rest.take(i - start)));
                assert(lines_view(out@.push(line)) =~= lines_view(out@).push(line@));
            }
            out.push(line);
            start = i + 1;
        } else {
            proof {
                lemma_no_newline(rest);
                assert(rest =~= t@.subrange(start as int, n as int));
                assert(t@.skip(n as int) =~= Seq::<char>::empty());
            }
            let line = crate::text::copy_range(t, start, n);
            proof {
                assert(lines_view(out@.push(line)) =~= lines_view(out@).push(line@));
            }
            out.push(line);
            start = n;
        }
    }
    proof {
        assert(t@.skip(start as int) =~= Seq::<char>::empty());
    }
    out
}

/// The first newline of `t` is at `i`.
proof fn lemma_newline_at(t: Seq<char>, i: int)
    requires
        0 <= i < t.len(),
        t[i] == '\n',
        forall|k: int| 0 <= k < i ==> t[k] != '\n',
    ensures
        newline_index(t) == Some(i),
    decreases i,
{
    if i > 0 {
        assert forall|k: int| 0 <= k < i - 1 implies t.drop_first()[k] != '\n' by {
            assert(t.drop_first()[k] == t[k + 1]);
        }
        lemma_newline_at(t.drop_first(), i - 1);
    }
}

/// A text without newline is a single line.
proof fn lemma_no_newline(t: Seq<char>)
    requires
        forall|k: int| 0 <= k < t.len() ==> t[k] != '\n',
    ensures
        newline_index(t) is None,
    decreases t.len(),
{
    if t.len() > 0 {
        assert forall|k: int| 0 <= k < t.len() - 1 implies t.drop_first()[k] != '\n' by {
            assert(t.drop_first()[k] == t[k + 1]);
        }
        lemma_no_newline(t.drop_first());
    }
}


impl Parser {
    /// Parses `line`, the line just read; a `$if` line also reads the body
    /// of the conditional.
    fn parse_line(&mut self, line: &Vec<char>) -> (r: Option<Directive>)
        requires
            old(self).wf(),
        ensures
            final(self).wf(),
            final(self).lines == old(self).lines,
            final(self).filename == old(self).filename,
            old(self).line_num <= final(self).line_num,
            opt_dir_view(r) == parse_line_spec(old(self).ls(), old(self).state(), line@).0,
            final(self).state() == parse_line_spec(old(self).ls(), old(self).state(), line@).1,
        decreases old(self).lines@.len() - old(self).line_num, 1int,
    {
        proof {
            assert(line@.skip(0) =~= line@);
        }
        match next_token_at(line, 0) {
            None => None,
            Some((Token::SpecialWord(w), j1)) => {
                if vec_eq(&w, "if") {
                    match parse_if_condition(line, j1) {
                        Some((name, value)) => {
                            let (then_group, else_group) = self.parse_conditional();
                            Some(Directive::Conditional { name, value, then_group, else_group })
                        },
                        None => {
                            self.report(ParseErrorKind::InvalidDirective);
                            None
                        },
                    }
                } else if vec_eq(&w, "else") {
                    self.report(ParseErrorKind::ElseWithoutIf);
                    None
                } else if vec_eq(&w, "endif") {
                    self.report(ParseErrorKind::EndifWithoutIf);
                    None
                } else {
                    self.report(ParseErrorKind::InvalidDirective);
                    None
                }
            },
            Some(_) => match parse_simple(line) {
                Some(d) => Some(d),
                None => {
                    self.report(ParseErrorKind::InvalidDirective);
                    None
                },
            },
        }
    }

    /// Parses the body of a conditional, up to and including `$endif`.
    fn parse_conditional(&mut self) -> (r: (Vec<Directive>, Vec<Directive>))
        requires
            old(self).wf(),
        ensures
            final(self).wf(),
            final(self).lines == old(self).lines,
            final(self).filename == old(self).filename,
            old(self).line_num <= final(self).line_num,
            ({
                let c = parse_cond_spec(old(self).ls(), old(self).state(), false, seq![], seq![]);
                &&& dirs_view(r.0@) == c.0
                &&& dirs_view(r.1@) == c.1
                &&& final(self).state() == c.2
            }),
        decreases old(self).lines@.len() - old(self).line_num, 0int,
    {
        let ghost ls = self.ls();
        let ghost st0 = self.state();
        let ghost entry = self.line_num;
        let mut then_group: Vec<Directive> = Vec::new();
        let mut else_group: Vec<Directive> = Vec::new();
        let mut parse_else = false;
        proof {
            assert(dirs_view(then_group@) =~= Seq::<DirectiveView>::empty());
            assert(dirs_view(else_group@) =~= Seq::<DirectiveView>::empty());
        }
        loop
            invariant_except_break
                parse_cond_spec(ls, st0, false, seq![], seq![]) == parse_cond_spec(
                    ls,
                    self.state(),
                    parse_else,
                    dirs_view(then_group@),
                    dirs_view(else_group@),
                ),
            invariant
                self.wf(),
                self.ls() == ls,
                self.lines == old(self).lines,
                self.lines@.len() == ls.len(),
                self.filename == old(self).filename,
                entry == old(self).line_num,
                entry <= self.line_num,
                st0 == old(self).state(),
            ensures
                self.wf(),
                self.ls() == ls,
                self.lines == old(self).lines,
                self.filename == old(self).filename,
                entry <= self.line_num,
                parse_cond_spec(ls, st0, false, seq![], seq![]) == (
                    dirs_view(then_group@),
                    dirs_view(else_group@),
                    self.state(),
                ),
            decreases self.lines@.len() - self.line_num,
        {
            let ghost st = self.state();
            let line = match self.next_line() {
                Some(l) => l,
                None => {
                    self.report(ParseErrorKind::MissingEndif);
                    break ;
                },
            };
            let ghost st1 = PState { pos: st.pos + 1, msgs: st.msgs };
            proof {
                assert(self.state() == st1);
                assert(line@.skip(0) =~= line@);
            }
            if line.len() > 0 && line[0] == '#' {
                continue ;
            }
            match next_token_at(&line, 0) {
                None => {
                    continue ;
                },
                Some((Token::SpecialWord(w), _)) => {
                    if vec_eq(&w, "else") {
                        if parse_else {
                            self.report(ParseErrorKind::DuplicateElse);
                        } else {
                            parse_else = true;
                        }
                        continue ;
                    } else if vec_eq(&w, "endif") {
                        break ;
                    }
                },
                Some(_) => {},
            }
            let d = self.parse_line(&line);
            proof {
                assert(resume(ls, st1, self.state()) == self.state());
            }
            match d {
                Some(d) => {
                    proof {
                        if parse_else {
                            lemma_dirs_view_push(else_group@, d);
                        } else {
                            lemma_dirs_view_push(then_group@, d);
                        }
                    }
                    if parse_else {
                        else_group.push(d);
                    } else {
                        then_group.push(d);
                    }
                },
                None => {},
            }
        }
        (then_group, else_group)
    }

    /// Parses all remaining lines.
    pub fn parse(&mut self) -> (r: Vec<Item>)
        requires
            old(self).wf(),
        ensures
            final(self).wf(),
            final(self).ls() == old(self).ls(),
            ({
                let p = parse_spec(old(self).ls(), old(self).state(), seq![]);
                &&& items_view(r@) == p.0
                &&& final(self).state() == p.1
            }),
    {
        let ghost ls = self.ls();
        let ghost st0 = self.state();
        let mut items: Vec<Item> = Vec::new();
        proof {
            assert(items_view(items@) =~= Seq::<ItemView>::empty());
        }
        while self.line_num < self.lines.len()
            invariant
                self.wf(),
                self.ls() == ls,
                self.lines@.len() == ls.len(),
                parse_spec(ls, st0, seq![]) == parse_spec(ls, self.state(), items_view(items@)),
            decreases self.lines@.len() - self.line_num,
        {
            let ghost st = self.state();
            let line = self.next_line().unwrap();
            let ghost st1 = PState { pos: st.pos + 1, msgs: st.msgs };
            proof {
                assert(self.state() == st1);
                assert(line@.skip(0) =~= line@);
            }
            if line.len() > 0 && line[0] == '#' {
                continue ;
            }
            match next_token_at(&line, 0) {
                Some((Token::SpecialWord(w), j)) => {
                    if vec_eq(&w, "include") {
                        let n = line.len();
                        let path = crate::text::string_of(line.as_slice(), j, n);
                        proof {
                            assert(line@.subrange(j as int, n as int) =~= line@.skip(j as int));
                            assert(items_view(items@.push(Item::Include(path))) =~= items_view(
                                items@,
                            ).push(ItemView::Include(path@)));
                        }
                        items.push(Item::Include(path));
                        continue ;
                    }
                },
                _ => {},
            }
            let d = self.parse_line(&line);
            proof {
                assert(resume(ls, st1, self.state()) == self.state());
            }
            match d {
                Some(d) => {
                    proof {
                        assert(items_view(items@.push(Item::Directive(d))) =~= items_view(
                            items@,
                        ).push(ItemView::Directive(dir_view(d))));
                    }
                    items.push(Item::Directive(d));
                },
                None => {},
            }
        }
        items
    }
}

/// The directives among `items`, in order.
pub open spec fn directives_of(items: Seq<ItemView>) -> Seq<DirectiveView>
    decreases items.len(),
{
    if items.len() == 0 {
        seq![]
    } else {
        let rest = directives_of(items.drop_last());
        match items.last() {
            ItemView::Directive(d) => rest.push(d),
            ItemView::Include(_) => rest,
        }
    }
}

/// Model of the result of parsing the text `text`: its items and the
/// diagnostics found on the way.
pub open spec fn parsed_text(text: Seq<char>) -> (Seq<ItemView>, PState) {
    parse_spec(text_lines(text), PState { pos: 0, msgs: seq![] }, seq![])
}

/// Parses some text and returns the contained items together with the
/// diagnostics, in the order they were found.
///
/// An `$include` line yields the path of the file it names.
pub fn parse_text_items(name: &str, text: &str) -> (r: (Vec<Item>, Vec<ParseMessage>))
    ensures
        items_view(r.0@) == parsed_text(text@).0,
        r.1@ == parsed_text(text@).1.msgs,
{
    let mut p = Parser::new(name, text);
    let items = p.parse();
    (items, p.msgs)
}

/// Parses some text and returns contained directives.
///
/// `$include` lines name other files, which are not read here: they yield
/// no directive (`parse_text_items` returns their paths). Diagnostics are
/// returned by `parse_text_items`.
pub fn parse_text(name: &str, line: &str) -> (r: Vec<Directive>)
    ensures
        dirs_view(r@) == directives_of(parsed_text(line@).0),
{
    let (items, _) = parse_text_items(name, line);
    let mut out: Vec<Directive> = Vec::new();
    let ghost iv = items_view(items@);
    let ghost n = iv.len();
    let mut rest = items;
    proof {
        assert(dirs_view(out@) =~= Seq::<DirectiveView>::empty());
        assert(directives_of(iv.take(0)) =~= Seq::<DirectiveView>::empty());
    }
    while rest.len() > 0
        invariant
            n == iv.len(),
            rest@.len() <= n,
            forall|k: int|
                0 <= k < rest@.len() ==> item_view(#[trigger] rest@[k]) == iv[n - rest@.len() + k],
            dirs_view(out@) == directives_of(iv.take(n - rest@.len())),
        decreases rest@.len(),
    {
        let ghost m = n - rest@.len();
        let ghost before = rest@;
        let it = rest.remove(0);
        proof {
            assert(item_view(before[0]) == iv[m]);
            assert forall|k: int| 0 <= k < rest@.len() implies item_view(
                #[trigger] rest@[k],
            ) == iv[n - rest@.len() + k] by {
                assert(rest@[k] == before[k + 1]);
            }
            assert(iv.take(m + 1).drop_last() =~= iv.take(m));
            assert(iv.take(m + 1).last() == iv[m]);
        }
        match it {
            Item::Directive(d) => {
                proof {
                    lemma_dirs_view_push(out@, d);
                }
                out.push(d);
            },
            Item::Include(_) => {},
        }
    }
    proof {
        assert(iv.take(n as int) =~= iv);
    }
    out
}

} // verus!
