//! Completion from a command's completion file: a YAML list of the
//! command's words, where a mapping gives the words that may follow a
//! sub-command.
use vstd::prelude::*;

use crate::text::{chars_of, str_eq, str_len, str_starts_with, strings_view};

verus! {

#[verifier::external_type_specification]
#[verifier::external_body]
pub struct ExYaml(yaml_rust::Yaml);

/// A node of a YAML document, with what completion reads of it.
pub enum DotNode {
    Str(String),
    Int(i64),
    /// A floating-point number, as written.
    Real(String),
    Bool(bool),
    Null,
    Array(Vec<DotNode>),
    /// A mapping's entries, in order.
    Hash(Vec<(DotNode, DotNode)>),
    /// An alias or a value that could not be read.
    Other,
}

/// The documents of the YAML text `text` (`yaml_rust::YamlLoader::load_from_str`),
/// or `None` when it is not valid YAML.
pub uninterp spec fn yaml_documents(text: Seq<char>) -> Option<Seq<DotNode>>;

/// The node that the scalar `text` reads as (`yaml_rust::Yaml::from_str`).
pub uninterp spec fn yaml_scalar_of(text: Seq<char>) -> DotNode;

/// The node of a YAML value, variant for variant.
#[verifier::external_body]
fn dot_node(y: &yaml_rust::Yaml) -> DotNode {
    match y {
        yaml_rust::Yaml::String(s) => DotNode::Str(s.clone()),
        yaml_rust::Yaml::Integer(i) => DotNode::Int(*i),
        yaml_rust::Yaml::Real(s) => DotNode::Real(s.clone()),
        yaml_rust::Yaml::Boolean(b) => DotNode::Bool(*b),
        yaml_rust::Yaml::Null => DotNode::Null,
        yaml_rust::Yaml::Array(a) => DotNode::Array(a.iter().map(dot_node).collect()),
        yaml_rust::Yaml::Hash(h) => DotNode::Hash(h.iter().map(|(k, v)| (dot_node(k), dot_node(v))).collect()),
        _ => DotNode::Other,
    }
}

/// Parses the YAML text `text` into its documents.
///
/// Calls `yaml_rust::YamlLoader::load_from_str` and converts each value to
/// a `DotNode`; the contract names the result. Why a text fails to parse
/// is not kept.
#[verifier::external_body]
pub(crate) fn load_documents(text: &str) -> (r: Option<Vec<DotNode>>)
    ensures
        match yaml_documents(text@) {
            Some(d) => r matches Some(v) && v@ == d,
            None => r is None,
        },
{
    match yaml_rust::YamlLoader::load_from_str(text) {
        Ok(docs) => Some(docs.iter().map(dot_node).collect()),
        Err(_) => None,
    }
}

/// The node that the scalar `text` reads as.
///
/// Calls `yaml_rust::Yaml::from_str`; the contract names the result and
/// adds what its source shows: the result is a string, an integer, a
/// floating-point number, a boolean or null.
#[verifier::external_body]
fn yaml_scalar(text: &str) -> (r: DotNode)
    ensures
        r == yaml_scalar_of(text@),
        r is Str || r is Int || r is Real || r is Bool || r is Null,
{
    dot_node(&yaml_rust::Yaml::from_str(text))
}

/// Whether the mapping key `k` equals the scalar `s`.
pub open spec fn key_is(k: DotNode, s: DotNode) -> bool {
    match (k, s) {
        (DotNode::Str(a), DotNode::Str(b)) => a@ == b@,
        (DotNode::Int(a), DotNode::Int(b)) => a == b,
        (DotNode::Real(a), DotNode::Real(b)) => a@ == b@,
        (DotNode::Bool(a), DotNode::Bool(b)) => a == b,
        (DotNode::Null, DotNode::Null) => true,
        _ => false,
    }
}

/// Whether a word `value` of the file is offered for the word `word`: it
/// starts with `word`, or with a backquote (a command whose output gives
/// the words).
pub open spec fn offered(value: Seq<char>, word: Seq<char>) -> bool {
    word.is_prefix_of(value) || (value.len() > 0 && value[0] == '`')
}

/// The words offered among the string keys of `entries`.
pub open spec fn key_words(entries: Seq<(DotNode, DotNode)>, word: Seq<char>) -> Seq<Seq<char>>
    decreases entries.len(),
{
    if entries.len() == 0 {
        Seq::empty()
    } else {
        let r = key_words(entries.drop_last(), word);
        match entries.last().0 {
            DotNode::Str(s) => if offered(s@, word) { r.push(s@) } else { r },
            _ => r,
        }
    }
}

/// The words offered among the strings of `items`.
pub open spec fn string_words(items: Seq<DotNode>, word: Seq<char>) -> Seq<Seq<char>>
    decreases items.len(),
{
    if items.len() == 0 {
        Seq::empty()
    } else {
        let r = string_words(items.drop_last(), word);
        match items.last() {
            DotNode::Str(s) => if offered(s@, word) { r.push(s@) } else { r },
            _ => r,
        }
    }
}

/// The words offered among the strings of the lists that are values of
/// `entries`, all of them, in order.
pub open spec fn value_words(entries: Seq<(DotNode, DotNode)>, word: Seq<char>) -> Seq<Seq<char>>
    decreases entries.len(),
{
    if entries.len() == 0 {
        Seq::empty()
    } else {
        let r = value_words(entries.drop_last(), word);
        match entries.last().1 {
            DotNode::Array(a) => r + string_words(a@, word),
            _ => r,
        }
    }
}

/// Whether `entries` has the key `key`.
pub open spec fn has_key(entries: Seq<(DotNode, DotNode)>, key: DotNode) -> bool {
    exists|i: int| 0 <= i < entries.len() && key_is(#[trigger] entries[i].0, key)
}

/// The words that the items `items` of a document offer for `word`, and
/// how many items are neither a string nor a mapping. Without a
/// sub-command (`sub_cmd` empty) a string item is a word and the keys of a
/// mapping are words; with one, a mapping that has the sub-command (read
/// as `key`) as a key offers the strings of all its lists.
pub open spec fn item_words(items: Seq<DotNode>, sub_cmd: Seq<char>, key: DotNode, word: Seq<char>) -> (Seq<Seq<char>>, nat)
    decreases items.len(),
{
    if items.len() == 0 {
        (Seq::empty(), 0)
    } else {
        let (r, bad) = item_words(items.drop_last(), sub_cmd, key, word);
        match items.last() {
            DotNode::Str(s) => if sub_cmd.len() == 0 && offered(s@, word) { (r.push(s@), bad) } else { (r, bad) },
            DotNode::Hash(h) => if sub_cmd.len() == 0 {
                (r + key_words(h@, word), bad)
            } else if has_key(h@, key) {
                (r + value_words(h@, word), bad)
            } else {
                (r, bad)
            },
            _ => (r, bad + 1),
        }
    }
}

/// The words that the documents `docs` offer for `word`, and how many
/// times the file is found in a bad format: once for each document that
/// is not a list and each item that is neither a string nor a mapping.
pub open spec fn dots_words(docs: Seq<DotNode>, sub_cmd: Seq<char>, key: DotNode, word: Seq<char>) -> (Seq<Seq<char>>, nat)
    decreases docs.len(),
{
    if docs.len() == 0 {
        (Seq::empty(), 0)
    } else {
        let (r, bad) = dots_words(docs.drop_last(), sub_cmd, key, word);
        match docs.last() {
            DotNode::Array(items) => {
                let (w, b) = item_words(items@, sub_cmd, key, word);
                (r + w, bad + b)
            },
            _ => (r, bad + 1),
        }
    }
}

/// Whether the mapping key `k` equals the scalar `s` (see `key_is`).
fn key_matches(k: &DotNode, s: &DotNode) -> (b: bool)
    ensures
        b == key_is(*k, *s),
{
    match (k, s) {
        (DotNode::Str(a), DotNode::Str(b)) => str_eq(a.as_str(), b.as_str()),
        (DotNode::Int(a), DotNode::Int(b)) => *a == *b,
        (DotNode::Real(a), DotNode::Real(b)) => str_eq(a.as_str(), b.as_str()),
        (DotNode::Bool(a), DotNode::Bool(b)) => *a == *b,
        (DotNode::Null, DotNode::Null) => true,
        _ => false,
    }
}

/// Whether `value` is offered for `word` (see `offered`).
pub fn is_offered(value: &str, word: &str) -> (b: bool)
    ensures
        b == offered(value@, word@),
{
    if str_starts_with(value, word) {
        return true;
    }
    let v = chars_of(value);
    v.len() > 0 && v[0] == '`'
}

/// Appends the string `s` to `out` when it is offered for `word`.
fn push_offered(out: &mut Vec<String>, s: &String, word: &str)
    ensures
        strings_view(final(out)@) == if offered(s@, word@) {
            strings_view(old(out)@).push(s@)
        } else {
            strings_view(old(out)@)
        },
{
    if is_offered(s.as_str(), word) {
        let ghost before = strings_view(out@);
        out.push(s.clone());
        assert(strings_view(out@) =~= before.push(s@));
    }
}

/// Appends `key_words(entries, word)` to `out`.
fn push_key_words(out: &mut Vec<String>, entries: &Vec<(DotNode, DotNode)>, word: &str)
    ensures
        strings_view(final(out)@) == strings_view(old(out)@) + key_words(entries@, word@),
{
    let ghost start = strings_view(out@);
    let mut i: usize = 0;
    assert(entries@.take(0) =~= Seq::<(DotNode, DotNode)>::empty());
    assert(strings_view(out@) =~= start + key_words(entries@.take(0), word@));
    while i < entries.len()
        invariant
            i <= entries@.len(),
            strings_view(out@) == start + key_words(entries@.take(i as int), word@),
        decreases entries@.len() - i,
    {
        assert(entries@.take(i + 1).drop_last() =~= entries@.take(i as int));
        if let DotNode::Str(s) = &entries[i].0 {
            push_offered(out, s, word);
        }
        proof {
            assert(strings_view(out@) =~= start + key_words(entries@.take(i + 1), word@));
        }
        i = i + 1;
    }
    assert(entries@.take(entries@.len() as int) =~= entries@);
}

/// Appends `string_words(items, word)` to `out`.
fn push_string_words(out: &mut Vec<String>, items: &Vec<DotNode>, word: &str)
    ensures
        strings_view(final(out)@) == strings_view(old(out)@) + string_words(items@, word@),
{
    let ghost start = strings_view(out@);
    let mut i: usize = 0;
    assert(items@.take(0) =~= Seq::<DotNode>::empty());
    assert(strings_view(out@) =~= start + string_words(items@.take(0), word@));
    while i < items.len()
        invariant
            i <= items@.len(),
            strings_view(out@) == start + string_words(items@.take(i as int), word@),
        decreases items@.len() - i,
    {
        assert(items@.take(i + 1).drop_last() =~= items@.take(i as int));
        if let DotNode::Str(s) = &items[i] {
            push_offered(out, s, word);
        }
        proof {
            assert(strings_view(out@) =~= start + string_words(items@.take(i + 1), word@));
        }
        i = i + 1;
    }
    assert(items@.take(items@.len() as int) =~= items@);
}

/// Appends `value_words(entries, word)` to `out`.
fn push_value_words(out: &mut Vec<String>, entries: &Vec<(DotNode, DotNode)>, word: &str)
    ensures
        strings_view(final(out)@) == strings_view(old(out)@) + value_words(entries@, word@),
{
    let ghost start = strings_view(out@);
    let mut i: usize = 0;
    assert(entries@.take(0) =~= Seq::<(DotNode, DotNode)>::empty());
    assert(strings_view(out@) =~= start + value_words(entries@.take(0), word@));
    while i < entries.len()
        invariant
            i <= entries@.len(),
            strings_view(out@) == start + value_words(entries@.take(i as int), word@),
        decreases entries@.len() - i,
    {
        assert(entries@.take(i + 1).drop_last() =~= entries@.take(i as int));
        if let DotNode::Array(a) = &entries[i].1 {
            push_string_words(out, a, word);
        }
        proof {
            assert(strings_view(out@) =~= start + value_words(entries@.take(i + 1), word@));
        }
        i = i + 1;
    }
    assert(entries@.take(entries@.len() as int) =~= entries@);
}

/// Whether `entries` has the key `key` (see `has_key`).
fn find_key(entries: &Vec<(DotNode, DotNode)>, key: &DotNode) -> (b: bool)
    ensures
        b == has_key(entries@, *key),
{
    let mut i: usize = 0;
    while i < entries.len()
        invariant
            i <= entries@.len(),
            forall|j: int| 0 <= j < i ==> !key_is(#[trigger] entries@[j].0, *key),
        decreases entries@.len() - i,
    {
        if key_matches(&entries[i].0, key) {
            return true;
        }
        i = i + 1;
    }
    false
}

/// Appends the words that the items `items` offer to `out`, and returns
/// how many items are in a bad format (see `item_words`).
fn push_item_words(out: &mut Vec<String>, items: &Vec<DotNode>, sub_cmd: &str, key: &DotNode, word: &str) -> (bad: usize)
    ensures
        strings_view(final(out)@) == strings_view(old(out)@) + item_words(items@, sub_cmd@, *key, word@).0,
        bad == item_words(items@, sub_cmd@, *key, word@).1,
{
    let ghost start = strings_view(out@);
    let mut bad: usize = 0;
    let mut i: usize = 0;
    let no_sub = str_len(sub_cmd) == 0;
    assert(items@.take(0) =~= Seq::<DotNode>::empty());
    assert(strings_view(out@) =~= start + item_words(items@.take(0), sub_cmd@, *key, word@).0);
    while i < items.len()
        invariant
            i <= items@.len(),
            no_sub == (sub_cmd@.len() == 0),
            strings_view(out@) == start + item_words(items@.take(i as int), sub_cmd@, *key, word@).0,
            bad == item_words(items@.take(i as int), sub_cmd@, *key, word@).1,
            bad <= i,
        decreases items@.len() - i,
    {
        assert(items@.take(i + 1).drop_last() =~= items@.take(i as int));
        match &items[i] {
            DotNode::Str(s) => {
                if no_sub {
                    push_offered(out, s, word);
                }
            },
            DotNode::Hash(h) => {
                if no_sub {
                    push_key_words(out, h, word);
                } else if find_key(h, key) {
                    push_value_words(out, h, word);
                }
            },
            _ => {
                bad = bad + 1;
            },
        }
        proof {
            assert(strings_view(out@) =~= start + item_words(items@.take(i + 1), sub_cmd@, *key, word@).0);
        }
        i = i + 1;
    }
    assert(items@.take(items@.len() as int) =~= items@);
    bad
}

/// `n`, or `usize::MAX` when it is larger.
pub open spec fn capped(n: nat) -> nat {
    if n <= usize::MAX { n } else { usize::MAX as nat }
}

/// The words that the documents `docs` of a completion file offer for the
/// word `word` after the sub-command `sub_cmd` (empty for none), and how
/// many times the file is in a bad format, up to `usize::MAX` (see
/// `dots_words`).
pub fn dots_candidates(docs: &Vec<DotNode>, sub_cmd: &str, word: &str) -> (r: (Vec<String>, usize))
    ensures
        strings_view(r.0@) == dots_words(docs@, sub_cmd@, yaml_scalar_of(sub_cmd@), word@).0,
        r.1 == capped(dots_words(docs@, sub_cmd@, yaml_scalar_of(sub_cmd@), word@).1),
{
    let key = yaml_scalar(sub_cmd);
    let mut out: Vec<String> = Vec::new();
    let mut bad: usize = 0;
    let mut i: usize = 0;
    assert(docs@.take(0) =~= Seq::<DotNode>::empty());
    assert(strings_view(out@) =~= dots_words(docs@.take(0), sub_cmd@, key, word@).0);
    while i < docs.len()
        invariant
            i <= docs@.len(),
            key == yaml_scalar_of(sub_cmd@),
            strings_view(out@) == dots_words(docs@.take(i as int), sub_cmd@, key, word@).0,
            bad == capped(dots_words(docs@.take(i as int), sub_cmd@, key, word@).1),
        decreases docs@.len() - i,
    {
        assert(docs@.take(i + 1).drop_last() =~= docs@.take(i as int));
        match &docs[i] {
            DotNode::Array(items) => {
                let b = push_item_words(&mut out, items, sub_cmd, &key, word);
                bad = if bad > usize::MAX - b { usize::MAX } else { bad + b };
            },
            _ => {
                bad = if bad == usize::MAX { usize::MAX } else { bad + 1 };
            },
        }
        proof {
            assert(strings_view(out@) =~= dots_words(docs@.take(i + 1), sub_cmd@, key, word@).0);
        }
        i = i + 1;
    }
    assert(docs@.take(docs@.len() as int) =~= docs@);
    (out, bad)
}

/// The words that the completion file with the text `text` offers for
/// `word` after the sub-command `sub_cmd`, with how many times it is in a
/// bad format (see `dots_candidates`); `None` when the text is not valid
/// YAML.
pub fn complete_dots(text: &str, sub_cmd: &str, word: &str) -> (r: Option<(Vec<String>, usize)>)
    ensures
        match yaml_documents(text@) {
            None => r is None,
            Some(d) => r matches Some(x) && strings_view(x.0@) == dots_words(d, sub_cmd@, yaml_scalar_of(sub_cmd@), word@).0
                && x.1 == capped(dots_words(d, sub_cmd@, yaml_scalar_of(sub_cmd@), word@).1),
        },
{
    match load_documents(text) {
        Some(docs) => Some(dots_candidates(&docs, sub_cmd, word)),
        None => None,
    }
}

/// Whether `s` starts with `-`.
pub open spec fn is_option(s: Seq<char>) -> bool {
    s.len() > 0 && s[0] == '-'
}

/// The sub-command that the words `args` of a line name, whose completion
/// words come from the mapping of that name: the second word, when it is
/// no option and a third word follows or the line ends with a space.
pub open spec fn sub_command_spec(args: Seq<Seq<char>>, ends_with_space: bool) -> Seq<char> {
    if args.len() >= 2 && !is_option(args[1]) && (args.len() >= 3 || ends_with_space) {
        args[1]
    } else {
        Seq::empty()
    }
}

/// The sub-command of a line with the words `args` (empty for none; see
/// `sub_command_spec`).
pub fn dots_sub_command(args: &Vec<String>, ends_with_space: bool) -> (r: String)
    ensures
        r@ == sub_command_spec(strings_view(args@), ends_with_space),
{
    if args.len() >= 2 {
        let v = chars_of(args[1].as_str());
        let opt = v.len() > 0 && v[0] == '-';
        if !opt && (args.len() >= 3 || ends_with_space) {
            return args[1].clone();
        }
    }
    String::new()
}

} // verus!
