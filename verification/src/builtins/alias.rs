//! What the `alias` builtin is asked to do, and what it prints about the
//! aliases it knows.
use vstd::prelude::*;
use vstd::string::StringExecFns;

use crate::re::{find_group_pairs, re_contains, regex_compiles, regex_group_pairs, regex_is_match};
use crate::text::{join_seq, join_strings, chars_of, strings_view};

verus! {

/// `alias name='content'`.
pub open spec fn alias_line_spec(name: Seq<char>, content: Seq<char>) -> Seq<char> {
    "alias "@ + name + "='"@ + content + "'"@
}

/// `alias name='content'`, the line that shows one alias.
pub fn alias_line(name: &str, content: &str) -> (s: String)
    ensures
        s@ == alias_line_spec(name@, content@),
{
    let mut s = String::from_str("alias ");
    s.append(name);
    s.append("='");
    s.append(content);
    s.append("'");
    s
}

/// The lines that show the aliases `list`, in order.
pub open spec fn alias_lines(list: Seq<(String, String)>) -> Seq<Seq<char>> {
    list.map_values(|p: (String, String)| alias_line_spec(p.0@, p.1@))
}

/// What `alias` alone prints: each alias of `list` on a line of its own.
pub fn alias_list_text(list: &Vec<(String, String)>) -> (s: String)
    ensures
        s@ == join_seq(alias_lines(list@), "\n"@),
{
    let mut lines: Vec<String> = Vec::new();
    let mut i: usize = 0;
    while i < list.len()
        invariant
            i <= list@.len(),
            strings_view(lines@) == alias_lines(list@.take(i as int)),
        decreases list@.len() - i,
    {
        let line = alias_line(list[i].0.as_str(), list[i].1.as_str());
        let ghost before = strings_view(lines@);
        lines.push(line);
        proof {
            assert(strings_view(lines@) =~= before.push(alias_line_spec(list@[i as int].0@, list@[i as int].1@)));
            assert(alias_lines(list@.take(i + 1)) =~= alias_lines(list@.take(i as int)).push(
                alias_line_spec(list@[i as int].0@, list@[i as int].1@),
            ));
        }
        i = i + 1;
    }
    proof {
        assert(list@.take(list@.len() as int) =~= list@);
    }
    join_strings(lines.as_slice(), "\n")
}

/// What `alias name` prints: the alias's line when `content` is its
/// definition, else the message that it is not found.
pub fn single_alias_text(name: &str, content: Option<&str>) -> (r: Result<String, String>)
    ensures
        match content {
            Some(c) => r matches Ok(s) && s@ == alias_line_spec(name@, c@),
            None => r matches Err(e) && e@ == "cicada: alias: "@ + name@ + ": not found"@,
        },
{
    match content {
        Some(c) => Ok(alias_line(name, c)),
        None => {
            let mut e = String::from_str("cicada: alias: ");
            e.append(name);
            e.append(": not found");
            Err(e)
        },
    }
}

/// The pattern of an alias's name alone: `alias name` shows that alias.
pub const ALIAS_NAME: &'static str = "^[a-zA-Z0-9_\\.-]+$";

/// The pattern of a definition `name=value`, with the name and the value
/// as its capture groups.
pub const ALIAS_DEFINITION: &'static str = "^([a-zA-Z0-9_\\.-]+)=(.*)$";

/// What `alias` prints when given more than one argument.
pub const ALIAS_USAGE: &'static str = "alias syntax error: usage: alias foo='echo foo'";

/// What the `alias` builtin is asked to do.
#[derive(Debug)]
pub enum AliasRequest {
    /// List every alias.
    List,
    /// Too many arguments: print the usage.
    Usage,
    /// Show the alias of this name.
    Show(String),
    /// Define aliases: for each, the name, the value as written, and
    /// whether the value starts with a quote and is to be unquoted.
    Define(Vec<(String, String, bool)>),
}

/// An `AliasRequest` as plain values.
pub enum AliasRequestView {
    List,
    Usage,
    Show(Seq<char>),
    Define(Seq<(Seq<char>, Seq<char>, bool)>),
}

impl AliasRequest {
    /// The request as plain values.
    pub open spec fn view(&self) -> AliasRequestView {
        match self {
            AliasRequest::List => AliasRequestView::List,
            AliasRequest::Usage => AliasRequestView::Usage,
            AliasRequest::Show(s) => AliasRequestView::Show(s@),
            AliasRequest::Define(v) => AliasRequestView::Define(definitions_view(v@)),
        }
    }
}

/// Definitions as plain values.
pub open spec fn definitions_view(v: Seq<(String, String, bool)>) -> Seq<(Seq<char>, Seq<char>, bool)> {
    v.map_values(|d: (String, String, bool)| (d.0@, d.1@, d.2))
}

/// A name and value, with whether the value is quoted.
pub open spec fn definition_of(p: (Seq<char>, Seq<char>)) -> (Seq<char>, Seq<char>, bool) {
    (p.0, p.1, starts_with_quote(p.1))
}

/// Whether `s` starts with a double or a single quote.
pub open spec fn starts_with_quote(s: Seq<char>) -> bool {
    s.len() > 0 && (s[0] == '"' || s[0] == '\'')
}

/// The definitions that `input` makes: the name and value of each match of
/// `ALIAS_DEFINITION`, with whether the value is quoted.
pub open spec fn alias_definitions(input: Seq<char>) -> Seq<(Seq<char>, Seq<char>, bool)> {
    let pairs = if regex_compiles(ALIAS_DEFINITION@) {
        regex_group_pairs(ALIAS_DEFINITION@, input)
    } else {
        Seq::empty()
    };
    pairs.map_values(|p: (Seq<char>, Seq<char>)| definition_of(p))
}

/// What `alias` with the words `tokens` (its own name first) is asked to
/// do: list the aliases when alone, print the usage when given more than
/// one argument, show one alias when the argument is a name, else define
/// the aliases that the argument writes.
pub open spec fn alias_request_spec(tokens: Seq<Seq<char>>) -> AliasRequestView {
    if tokens.len() == 1 {
        AliasRequestView::List
    } else if tokens.len() > 2 {
        AliasRequestView::Usage
    } else if regex_compiles(ALIAS_NAME@) && regex_is_match(ALIAS_NAME@, tokens[1]) {
        AliasRequestView::Show(tokens[1])
    } else {
        AliasRequestView::Define(alias_definitions(tokens[1]))
    }
}

/// Whether `s` starts with a double or a single quote.
fn quoted(s: &str) -> (b: bool)
    ensures
        b == starts_with_quote(s@),
{
    let v = chars_of(s);
    v.len() > 0 && (v[0] == '"' || v[0] == '\'')
}

/// What `alias` with the words `tokens` (its own name first) is asked to
/// do (see `alias_request_spec`).
pub fn alias_request(tokens: &Vec<String>) -> (r: AliasRequest)
    requires
        tokens.len() >= 1,
    ensures
        r.view() == alias_request_spec(strings_view(tokens@)),
{
    let ghost t = strings_view(tokens@);
    if tokens.len() == 1 {
        return AliasRequest::List;
    }
    if tokens.len() > 2 {
        return AliasRequest::Usage;
    }
    let input = tokens[1].as_str();
    assert(t[1] == input@);
    if re_contains(input, ALIAS_NAME) {
        return AliasRequest::Show(input.to_string());
    }
    let pairs = find_group_pairs(ALIAS_DEFINITION, input);
    let ghost pv = crate::re::pairs_view(pairs@);
    let mut defs: Vec<(String, String, bool)> = Vec::new();
    let mut i: usize = 0;
    while i < pairs.len()
        invariant
            i <= pairs@.len(),
            defs@.len() == i,
            pv == crate::re::pairs_view(pairs@),
            definitions_view(defs@) == pv.take(i as int).map_values(|p: (Seq<char>, Seq<char>)| definition_of(p)),
        decreases pairs@.len() - i,
    {
        let q = quoted(pairs[i].1.as_str());
        let name = pairs[i].0.clone();
        let value = pairs[i].1.clone();
        let ghost before = defs@;
        defs.push((name, value, q));
        proof {
            assert(pv[i as int] == (name@, value@));
            assert(pv.take(i + 1) =~= pv.take(i as int).push(pv[i as int]));
            assert(definitions_view(defs@) =~= definitions_view(before).push(definition_of(pv[i as int])));
            assert(pv.take(i + 1).map_values(|p: (Seq<char>, Seq<char>)| definition_of(p))
                =~= pv.take(i as int).map_values(|p: (Seq<char>, Seq<char>)| definition_of(p)).push(definition_of(pv[i as int])));
        }
        i = i + 1;
    }
    proof {
        assert(pv.take(pv.len() as int) =~= pv);
    }
    AliasRequest::Define(defs)
}

} // verus!
