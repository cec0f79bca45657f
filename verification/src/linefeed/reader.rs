//! The configuration of a line reader: its key bindings, its variables,
//! and the evaluation of configuration directives.
use vstd::prelude::*;

use mortal::SequenceMap;

use crate::linefeed::command::{Command, CommandView};
use crate::linefeed::inputrc::{dir_view, dirs_view, Directive, DirectiveView};

use crate::linefeed::util::{match_name, name_matches};
use crate::linefeed::variables::{default_vars, var_index, Variable, VariableIter, Variables, VarsView};
use crate::text::str_eq;

verus! {

#[verifier::external_type_specification]
#[verifier::external_body]
#[verifier::reject_recursive_types(K)]
#[verifier::reject_recursive_types(V)]
pub struct ExSequenceMap<K, V>(SequenceMap<K, V>);

/// The key sequences of a binding table with their commands, in the order
/// in which the table keeps them.
pub uninterp spec fn binding_entries(m: SequenceMap<String, Command>) -> Seq<(Seq<char>, CommandView)>;

/// `a` comes before `b` in the order of `str`: character codes compared
/// from the first, a proper prefix first.
pub open spec fn key_lt(a: Seq<char>, b: Seq<char>) -> bool
    decreases a.len(),
{
    if a.len() == 0 {
        b.len() > 0
    } else if b.len() == 0 {
        false
    } else if a[0] != b[0] {
        (a[0] as int) < (b[0] as int)
    } else {
        key_lt(a.drop_first(), b.drop_first())
    }
}

/// The entries are sorted by key, each key once.
pub open spec fn sorted_entries(e: Seq<(Seq<char>, CommandView)>) -> bool {
    forall|i: int, j: int| 0 <= i < j < e.len() ==> key_lt(e[i].0, e[j].0)
}

/// The entries as a map from key sequences to commands.
pub open spec fn entries_map(e: Seq<(Seq<char>, CommandView)>) -> Map<Seq<char>, CommandView>
    decreases e.len(),
{
    if e.len() == 0 {
        Map::empty()
    } else {
        entries_map(e.drop_last()).insert(e.last().0, e.last().1)
    }
}

/// The pairs as a map in which the first of pairs with equal keys wins.
pub open spec fn first_wins(p: Seq<(Seq<char>, CommandView)>) -> Map<Seq<char>, CommandView>
    decreases p.len(),
{
    if p.len() == 0 {
        Map::empty()
    } else {
        first_wins(p.drop_first()).insert(p[0].0, p[0].1)
    }
}

/// Key sequences and commands as plain values.
pub open spec fn pairs_view(v: Seq<(String, Command)>) -> Seq<(Seq<char>, CommandView)> {
    Seq::new(v.len(), |i: int| (v[i].0@, v[i].1@))
}

/// Builds a binding table from pairs.
///
/// Calls `SequenceMap::from`, which sorts the pairs by key and, of pairs with
/// equal keys, keeps the first. The contract claims exactly that.
#[verifier::external_body]
fn map_from_pairs(v: Vec<(String, Command)>) -> (m: SequenceMap<String, Command>)
    ensures
        sorted_entries(binding_entries(m)),
        entries_map(binding_entries(m)) == first_wins(pairs_view(v@)),
{
    SequenceMap::from(v)
}

/// Binds `key` to `value`.
///
/// Calls `SequenceMap::insert`, which replaces the entry of an equal key, or
/// else inserts one at its place in key order, and returns the command
/// replaced. The contract claims that, for a table sorted by key.
#[verifier::external_body]
fn map_insert(m: &mut SequenceMap<String, Command>, key: String, value: Command) -> (r: Option<Command>)
    requires
        sorted_entries(binding_entries(*old(m))),
    ensures
        sorted_entries(binding_entries(*final(m))),
        entries_map(binding_entries(*final(m))) == entries_map(binding_entries(*old(m))).insert(key@, value@),
        match r {
            Some(c) => entries_map(binding_entries(*old(m))).contains_key(key@) && c@ == entries_map(
                binding_entries(*old(m)),
            )[key@],
            None => !entries_map(binding_entries(*old(m))).contains_key(key@),
        },
{
    m.insert(key, value)
}

/// The command bound to `key`.
///
/// Calls `SequenceMap::get`, which finds the entry of the key by binary
/// search. The contract claims its result for a table sorted by key.
#[verifier::external_body]
fn map_get<'a>(m: &'a SequenceMap<String, Command>, key: &str) -> (r: Option<&'a Command>)
    requires
        sorted_entries(binding_entries(*m)),
    ensures
        match r {
            Some(c) => entries_map(binding_entries(*m)).contains_key(key@) && c@ == entries_map(binding_entries(*m))[key@],
            None => !entries_map(binding_entries(*m)).contains_key(key@),
        },
{
    m.get(key)
}

/// Removes the binding of `key`.
///
/// Calls `SequenceMap::remove`, which removes the entry of the key, keeping
/// the others in order, and returns it. The contract claims that, for a
/// table sorted by key.
#[verifier::external_body]
fn map_remove(m: &mut SequenceMap<String, Command>, key: &str) -> (r: Option<(String, Command)>)
    requires
        sorted_entries(binding_entries(*old(m))),
    ensures
        sorted_entries(binding_entries(*final(m))),
        entries_map(binding_entries(*final(m))) == entries_map(binding_entries(*old(m))).remove(key@),
        match r {
            Some(e) => entries_map(binding_entries(*old(m))).contains_key(key@) && e.0@ == key@ && e.1@
                == entries_map(binding_entries(*old(m)))[key@],
            None => !entries_map(binding_entries(*old(m))).contains_key(key@),
        },
{
    m.remove(key)
}

/// The entries of a binding table.
///
/// Calls `SequenceMap::sequences`, which returns the entries as the table
/// keeps them.
#[verifier::external_body]
fn map_sequences<'a>(m: &'a SequenceMap<String, Command>) -> (r: &'a [(String, Command)])
    ensures
        pairs_view(r@) == binding_entries(*m),
{
    m.sequences()
}

/// The bindings that a reader starts with.
pub open spec fn default_binding_list() -> Seq<(Seq<char>, CommandView)> {
    seq![
        ("\r"@, Command::AcceptLine@),
        ("\n"@, Command::AcceptLine@),
        ("\x1b[A"@, Command::PreviousHistory@),
        ("\x1b[B"@, Command::NextHistory@),
        ("\x1b[C"@, Command::ForwardChar@),
        ("\x1b[D"@, Command::BackwardChar@),
        ("\x1b[H"@, Command::BeginningOfLine@),
        ("\x1b[F"@, Command::EndOfLine@),
        ("\x1bOA"@, Command::PreviousHistory@),
        ("\x1bOB"@, Command::NextHistory@),
        ("\x1bOC"@, Command::ForwardChar@),
        ("\x1bOD"@, Command::BackwardChar@),
        ("\x1bOH"@, Command::BeginningOfLine@),
        ("\x1bOF"@, Command::EndOfLine@),
        ("\x1b[2~"@, Command::OverwriteMode@),
        ("\x1b[3~"@, Command::DeleteChar@),
        ("\x01"@, Command::BeginningOfLine@),
        ("\x02"@, Command::BackwardChar@),
        ("\x04"@, Command::DeleteChar@),
        ("\x05"@, Command::EndOfLine@),
        ("\x06"@, Command::ForwardChar@),
        ("\x07"@, Command::Abort@),
        ("\x08"@, Command::BackwardDeleteChar@),
        ("\x0b"@, Command::KillLine@),
        ("\x0c"@, Command::ClearScreen@),
        ("\x0e"@, Command::NextHistory@),
        ("\x10"@, Command::PreviousHistory@),
        ("\x12"@, Command::ReverseSearchHistory@),
        ("\x14"@, Command::TransposeChars@),
        ("\x15"@, Command::BackwardKillLine@),
        ("\x16"@, Command::QuotedInsert@),
        ("\x17"@, Command::UnixWordRubout@),
        ("\x19"@, Command::Yank@),
        ("\x1d"@, Command::CharacterSearch@),
        ("\x7f"@, Command::BackwardDeleteChar@),
        ("\x1b\x08"@, Command::BackwardKillWord@),
        ("\x1b\x1d"@, Command::CharacterSearchBackward@),
        ("\x1b\x7f"@, Command::BackwardKillWord@),
        ("\x1bb"@, Command::BackwardWord@),
        ("\x1bd"@, Command::KillWord@),
        ("\x1bf"@, Command::ForwardWord@),
        ("\x1bt"@, Command::TransposeWords@),
        ("\x1by"@, Command::YankPop@),
        ("\x1b#"@, Command::InsertComment@),
        ("\x1b<"@, Command::BeginningOfHistory@),
        ("\x1b>"@, Command::EndOfHistory@),
        ("\t"@, Command::Complete@),
        ("\x1b?"@, Command::PossibleCompletions@),
        ("\x1b*"@, Command::InsertCompletions@),
        ("\x1b-"@, Command::DigitArgument@),
        ("\x1b0"@, Command::DigitArgument@),
        ("\x1b1"@, Command::DigitArgument@),
        ("\x1b2"@, Command::DigitArgument@),
        ("\x1b3"@, Command::DigitArgument@),
        ("\x1b4"@, Command::DigitArgument@),
        ("\x1b5"@, Command::DigitArgument@),
        ("\x1b6"@, Command::DigitArgument@),
        ("\x1b7"@, Command::DigitArgument@),
        ("\x1b8"@, Command::DigitArgument@),
        ("\x1b9"@, Command::DigitArgument@)
    ]
}

/// The binding table that a reader starts with.
pub fn default_bindings() -> (m: SequenceMap<String, Command>)
    ensures
        sorted_entries(binding_entries(m)),
        entries_map(binding_entries(m)) == first_wins(default_binding_list()),
{
    let mut v: Vec<(String, Command)> = Vec::new();
    v.push(("\r".to_string(), Command::AcceptLine));
    v.push(("\n".to_string(), Command::AcceptLine));
    v.push(("\x1b[A".to_string(), Command::PreviousHistory));
    v.push(("\x1b[B".to_string(), Command::NextHistory));
    v.push(("\x1b[C".to_string(), Command::ForwardChar));
    v.push(("\x1b[D".to_string(), Command::BackwardChar));
    v.push(("\x1b[H".to_string(), Command::BeginningOfLine));
    v.push(("\x1b[F".to_string(), Command::EndOfLine));
    v.push(("\x1bOA".to_string(), Command::PreviousHistory));
    v.push(("\x1bOB".to_string(), Command::NextHistory));
    v.push(("\x1bOC".to_string(), Command::ForwardChar));
    v.push(("\x1bOD".to_string(), Command::BackwardChar));
    v.push(("\x1bOH".to_string(), Command::BeginningOfLine));
    v.push(("\x1bOF".to_string(), Command::EndOfLine));
    v.push(("\x1b[2~".to_string(), Command::OverwriteMode));
    v.push(("\x1b[3~".to_string(), Command::DeleteChar));
    v.push(("\x01".to_string(), Command::BeginningOfLine));
    v.push(("\x02".to_string(), Command::BackwardChar));
    v.push(("\x04".to_string(), Command::DeleteChar));
    v.push(("\x05".to_string(), Command::EndOfLine));
    v.push(("\x06".to_string(), Command::ForwardChar));
    v.push(("\x07".to_string(), Command::Abort));
    v.push(("\x08".to_string(), Command::BackwardDeleteChar));
    v.push(("\x0b".to_string(), Command::KillLine));
    v.push(("\x0c".to_string(), Command::ClearScreen));
    v.push(("\x0e".to_string(), Command::NextHistory));
    v.push(("\x10".to_string(), Command::PreviousHistory));
    v.push(("\x12".to_string(), Command::ReverseSearchHistory));
    v.push(("\x14".to_string(), Command::TransposeChars));
    v.push(("\x15".to_string(), Command::BackwardKillLine));
    v.push(("\x16".to_string(), Command::QuotedInsert));
    v.push(("\x17".to_string(), Command::UnixWordRubout));
    v.push(("\x19".to_string(), Command::Yank));
    v.push(("\x1d".to_string(), Command::CharacterSearch));
    v.push(("\x7f".to_string(), Command::BackwardDeleteChar));
    v.push(("\x1b\x08".to_string(), Command::BackwardKillWord));
    v.push(("\x1b\x1d".to_string(), Command::CharacterSearchBackward));
    v.push(("\x1b\x7f".to_string(), Command::BackwardKillWord));
    v.push(("\x1bb".to_string(), Command::BackwardWord));
    v.push(("\x1bd".to_string(), Command::KillWord));
    v.push(("\x1bf".to_string(), Command::ForwardWord));
    v.push(("\x1bt".to_string(), Command::TransposeWords));
    v.push(("\x1by".to_string(), Command::YankPop));
    v.push(("\x1b#".to_string(), Command::InsertComment));
    v.push(("\x1b<".to_string(), Command::BeginningOfHistory));
    v.push(("\x1b>".to_string(), Command::EndOfHistory));
    v.push(("\t".to_string(), Command::Complete));
    v.push(("\x1b?".to_string(), Command::PossibleCompletions));
    v.push(("\x1b*".to_string(), Command::InsertCompletions));
    v.push(("\x1b-".to_string(), Command::DigitArgument));
    v.push(("\x1b0".to_string(), Command::DigitArgument));
    v.push(("\x1b1".to_string(), Command::DigitArgument));
    v.push(("\x1b2".to_string(), Command::DigitArgument));
    v.push(("\x1b3".to_string(), Command::DigitArgument));
    v.push(("\x1b4".to_string(), Command::DigitArgument));
    v.push(("\x1b5".to_string(), Command::DigitArgument));
    v.push(("\x1b6".to_string(), Command::DigitArgument));
    v.push(("\x1b7".to_string(), Command::DigitArgument));
    v.push(("\x1b8".to_string(), Command::DigitArgument));
    v.push(("\x1b9".to_string(), Command::DigitArgument));
    assert(pairs_view(v@) =~= default_binding_list());
    map_from_pairs(v)
}

/// A signal reported by the terminal.
#[derive(Clone, Copy, Debug, PartialEq, Eq, Structural)]
pub enum Signal {
    /// Break signal; Windows only
    Break,
    /// Continue signal; Unix only
    Continue,
    /// Interrupt signal
    Interrupt,
    /// Terminal window resize
    Resize,
    /// Suspend signal; Unix only
    Suspend,
    /// Quit signal; Unix only
    Quit,
}

/// What reading a line ended with.
#[derive(Debug)]
pub enum ReadResult {
    /// User issued end-of-file
    Eof,
    /// User input received
    Input(String),
    /// Reported signal was received
    Signal(Signal),
}

/// The configuration of a line reader: the application name that
/// conditional directives test, the key bindings and the variables.
pub struct Read {
    pub application: String,
    bindings: SequenceMap<String, Command>,
    pub variables: Variables,
    /// Whether signals are caught while reading.
    pub catch_signals: bool,
    /// What is appended after a unique completion.
    pub completion_append_character: Option<char>,
    /// Whether a line is being read.
    active: bool,
}

/// What a `Read` holds: the application name, the bindings as a map from
/// key sequences to commands, the variables, whether signals are caught,
/// the character appended after a completion, and whether a line is being
/// read.
pub struct ReadView {
    pub application: Seq<char>,
    pub bindings: Map<Seq<char>, CommandView>,
    pub variables: VarsView,
    pub catch_signals: bool,
    pub completion_append_character: Option<char>,
    pub active: bool,
}

impl View for Read {
    type V = ReadView;

    closed spec fn view(&self) -> ReadView {
        ReadView {
            application: self.application@,
            bindings: entries_map(binding_entries(self.bindings)),
            variables: self.variables@,
            catch_signals: self.catch_signals,
            completion_append_character: self.completion_append_character,
            active: self.active,
        }
    }
}

/// Whether a conditional directive `$if name=value` (or `$if value` when
/// `name` is `None`) holds for application `app` on terminal `term`.
pub open spec fn condition_holds(app: Seq<char>, term: Seq<char>, name: Option<Seq<char>>, value: Seq<char>) -> bool {
    match name {
        None => app == value,
        Some(n) => if n == "lib"@ {
            value == "linefeed"@
        } else if n == "mode"@ {
            value == "emacs"@
        } else if n == "term"@ {
            name_matches(term, value)
        } else {
            false
        },
    }
}

/// The configuration after one directive: a binding is added (replacing one
/// of the same sequence), a variable is set, or the group that the
/// condition selects is applied.
pub open spec fn apply_directive(st: ReadView, term: Seq<char>, d: DirectiveView) -> ReadView
    decreases d,
{
    match d {
        DirectiveView::Bind(seq, cmd) => ReadView { bindings: st.bindings.insert(seq, cmd), ..st },
        DirectiveView::Conditional { name, value, then_group, else_group } => {
            if condition_holds(st.application, term, name, value) {
                apply_directives(st, term, then_group)
            } else {
                apply_directives(st, term, else_group)
            }
        },
        DirectiveView::SetVariable(n, v) => ReadView { variables: st.variables.set_named(n, v), ..st },
    }
}

/// The configuration after the directives, in order.
pub open spec fn apply_directives(st: ReadView, term: Seq<char>, ds: Seq<DirectiveView>) -> ReadView
    decreases ds,
{
    if ds.len() == 0 {
        st
    } else {
        apply_directive(apply_directives(st, term, ds.subrange(0, ds.len() - 1)), term, ds[ds.len() - 1])
    }
}

/// The models of the first `i + 1` directives are those of the first `i`
/// and the model of directive `i`.
proof fn lemma_dirs_view_take(ds: Seq<Directive>, i: int)
    requires
        0 <= i < ds.len(),
    ensures
        dirs_view(ds.take(i + 1)) == dirs_view(ds.take(i)).push(dir_view(ds[i])),
{
    assert(ds.take(i + 1).subrange(0, i) =~= ds.take(i));
    assert(ds.take(i + 1)[i] == ds[i]);
}

impl Read {
    /// The bindings are sorted by key sequence and the variables well
    /// formed.
    pub closed spec fn wf(&self) -> bool {
        sorted_entries(binding_entries(self.bindings)) && self.variables.wf()
    }

    /// The configuration that a reader of `application` starts with: the
    /// default bindings and variables.
    pub fn new(application: &str) -> (r: Read)
        ensures
            r.wf(),
            r@.application == application@,
            r@.bindings == first_wins(default_binding_list()),
            r@.variables == default_vars(),
            r@.catch_signals,
            r@.completion_append_character == Some(' '),
            !r@.active,
    {
        let variables = Variables::new();
        Read {
            application: application.to_string(),
            bindings: default_bindings(),
            variables,
            catch_signals: true,
            completion_append_character: Some(' '),
            active: false,
        }
    }

    /// Whether a line is being read.
    pub fn is_active(&self) -> (b: bool)
        ensures
            b == self@.active,
    {
        self.active
    }

    /// Binds `seq` to `cmd` and returns the command it was bound to.
    pub fn bind_sequence(&mut self, seq: String, cmd: Command) -> (r: Option<Command>)
        requires
            old(self).wf(),
        ensures
            final(self).wf(),
            final(self)@ == (ReadView { bindings: old(self)@.bindings.insert(seq@, cmd@), ..old(self)@ }),
            match r {
                Some(c) => old(self)@.bindings.contains_key(seq@) && c@ == old(self)@.bindings[seq@],
                None => !old(self)@.bindings.contains_key(seq@),
            },
    {
        map_insert(&mut self.bindings, seq, cmd)
    }

    /// Binds `seq` to `cmd` unless it is bound already; returns whether it
    /// did.
    pub fn bind_sequence_if_unbound(&mut self, seq: String, cmd: Command) -> (b: bool)
        requires
            old(self).wf(),
        ensures
            final(self).wf(),
            b == !old(self)@.bindings.contains_key(seq@),
            b ==> final(self)@ == (ReadView { bindings: old(self)@.bindings.insert(seq@, cmd@), ..old(self)@ }),
            !b ==> final(self)@ == old(self)@,
    {
        if map_get(&self.bindings, seq.as_str()).is_some() {
            false
        } else {
            map_insert(&mut self.bindings, seq, cmd);
            true
        }
    }

    /// Removes the binding of `seq` and returns its command.
    pub fn unbind_sequence(&mut self, seq: &str) -> (r: Option<Command>)
        requires
            old(self).wf(),
        ensures
            final(self).wf(),
            final(self)@ == (ReadView { bindings: old(self)@.bindings.remove(seq@), ..old(self)@ }),
            match r {
                Some(c) => old(self)@.bindings.contains_key(seq@) && c@ == old(self)@.bindings[seq@],
                None => !old(self)@.bindings.contains_key(seq@),
            },
    {
        match map_remove(&mut self.bindings, seq) {
            Some((_, cmd)) => Some(cmd),
            None => None,
        }
    }

    /// The command bound to `seq`.
    pub fn binding(&self, seq: &str) -> (r: Option<&Command>)
        requires
            self.wf(),
        ensures
            match r {
                Some(c) => self@.bindings.contains_key(seq@) && c@ == self@.bindings[seq@],
                None => !self@.bindings.contains_key(seq@),
            },
    {
        map_get(&self.bindings, seq)
    }

    /// The bindings, in the order of their key sequences.
    pub fn bindings(&self) -> (it: BindingIter<'_>)
        ensures
            it.remaining() == binding_entries(self.bindings_table()),
    {
        let items = map_sequences(&self.bindings);
        BindingIter { items, front: 0, back: items.len() }
    }

    /// The binding table.
    pub closed spec fn bindings_table(&self) -> SequenceMap<String, Command> {
        self.bindings
    }

    /// The value of the variable called `name`.
    pub fn get_variable(&self, name: &str) -> (r: Option<Variable>)
        requires
            self.wf(),
        ensures
            match var_index(name@) {
                Some(i) => r is Some && r.unwrap()@ == self@.variables.value_of(i),
                None => r is None,
            },
    {
        self.variables.get_variable(name)
    }

    /// Sets the variable called `name` from `value` and returns its former
    /// value (see `Variables::set_variable`).
    pub fn set_variable(&mut self, name: &str, value: &str) -> (r: Option<Variable>)
        requires
            old(self).wf(),
        ensures
            final(self).wf(),
            final(self)@ == (ReadView { variables: old(self)@.variables.set_named(name@, value@), ..old(self)@ }),
            match var_index(name@) {
                Some(i) => match old(self)@.variables.set(i, value@) {
                    Some(_) => r is Some && r.unwrap()@ == old(self)@.variables.value_of(i),
                    None => r is None,
                },
                None => r is None,
            },
    {
        self.variables.set_variable(name, value)
    }

    /// The variables and their values.
    pub fn variables(&self) -> (it: VariableIter<'_>)
        ensures
            it.vars()@ == self@.variables,
            it.position() == 0,
    {
        self.variables.iter()
    }

    /// Whether the condition `$if name=value` (or `$if value`) holds on the
    /// terminal called `term_name`.
    pub fn eval_condition(&self, term_name: &str, name: Option<&str>, value: &str) -> (b: bool)
        ensures
            b == condition_holds(
                self@.application,
                term_name@,
                match name {
                    Some(n) => Some(n@),
                    None => None,
                },
                value@,
            ),
    {
        match name {
            None => str_eq(self.application.as_str(), value),
            Some(n) => {
                if str_eq(n, "lib") {
                    str_eq(value, "linefeed")
                } else if str_eq(n, "mode") {
                    str_eq(value, "emacs")
                } else if str_eq(n, "term") {
                    match_name(term_name, value)
                } else {
                    false
                }
            },
        }
    }

    /// Evaluates a configuration directive on the terminal called
    /// `term_name`.
    pub fn evaluate_directive(&mut self, term_name: &str, dir: &Directive)
        requires
            old(self).wf(),
        ensures
            final(self).wf(),
            final(self)@ == apply_directive(old(self)@, term_name@, dir_view(*dir)),
        decreases dir,
    {
        match dir {
            Directive::Bind(seq, cmd) => {
                self.bind_sequence(seq.clone(), cmd.copy());
            },
            Directive::Conditional { name, value, then_group, else_group } => {
                let n = match name {
                    Some(n) => Some(n.as_str()),
                    None => None,
                };
                if self.eval_condition(term_name, n, value.as_str()) {
                    self.evaluate_directives(term_name, then_group);
                } else {
                    self.evaluate_directives(term_name, else_group);
                }
            },
            Directive::SetVariable(name, value) => {
                self.set_variable(name.as_str(), value.as_str());
            },
        }
    }

    /// Evaluates configuration directives, in order, on the terminal called
    /// `term_name`.
    pub fn evaluate_directives(&mut self, term_name: &str, dirs: &Vec<Directive>)
        requires
            old(self).wf(),
        ensures
            final(self).wf(),
            final(self)@ == apply_directives(old(self)@, term_name@, dirs_view(dirs@)),
        decreases dirs,
    {
        let mut i: usize = 0;
        proof {
            assert(dirs@.take(0) =~= Seq::<Directive>::empty());
        }
        while i < dirs.len()
            invariant
                i <= dirs@.len(),
                self.wf(),
                self@ == apply_directives(old(self)@, term_name@, dirs_view(dirs@.take(i as int))),
            decreases dirs@.len() - i,
        {
            proof {
                lemma_dirs_view_take(dirs@, i as int);
                let dv = dirs_view(dirs@.take(i + 1));
                assert(dv.subrange(0, dv.len() - 1) =~= dirs_view(dirs@.take(i as int)));
                assert(decreases_to!(dirs => dirs@[i as int]));
            }
            self.evaluate_directive(term_name, &dirs[i]);
            i = i + 1;
        }
        proof {
            assert(dirs@.take(dirs@.len() as int) =~= dirs@);
        }
    }
}

/// The bindings of a reader, one after the other, from the front or from
/// the back.
pub struct BindingIter<'a> {
    items: &'a [(String, Command)],
    front: usize,
    back: usize,
}

impl<'a> BindingIter<'a> {
    /// The bindings not given yet.
    pub closed spec fn remaining(&self) -> Seq<(Seq<char>, CommandView)> {
        pairs_view(self.items@.subrange(self.front as int, self.back as int))
    }

    /// The bindings are taken from the front or the back of a table.
    pub closed spec fn wf(&self) -> bool {
        self.front <= self.back <= self.items@.len()
    }

    /// The next binding from the front.
    pub fn next(&mut self) -> (r: Option<(&'a str, &'a Command)>)
        requires
            old(self).wf(),
        ensures
            final(self).wf(),
            old(self).remaining().len() == 0 ==> r is None && final(self).remaining() == old(self).remaining(),
            old(self).remaining().len() > 0 ==> r is Some && r.unwrap().0@ == old(self).remaining()[0].0 && r.unwrap().1@
                == old(self).remaining()[0].1 && final(self).remaining() == old(self).remaining().drop_first(),
    {
        if self.front >= self.back {
            return None;
        }
        let item = &self.items[self.front];
        self.front = self.front + 1;
        proof {
            assert(pairs_view(self.items@.subrange(self.front as int, self.back as int)) =~= pairs_view(
                self.items@.subrange(self.front - 1, self.back as int),
            ).drop_first());
        }
        Some((item.0.as_str(), &item.1))
    }

    /// The next binding from the back.
    pub fn next_back(&mut self) -> (r: Option<(&'a str, &'a Command)>)
        requires
            old(self).wf(),
        ensures
            final(self).wf(),
            old(self).remaining().len() == 0 ==> r is None && final(self).remaining() == old(self).remaining(),
            old(self).remaining().len() > 0 ==> r is Some && r.unwrap().0@ == old(self).remaining().last().0
                && r.unwrap().1@ == old(self).remaining().last().1 && final(self).remaining() == old(
                self,
            ).remaining().drop_last(),
    {
        if self.front >= self.back {
            return None;
        }
        self.back = self.back - 1;
        let item = &self.items[self.back];
        proof {
            assert(pairs_view(self.items@.subrange(self.front as int, self.back as int)) =~= pairs_view(
                self.items@.subrange(self.front as int, self.back + 1),
            ).drop_last());
        }
        Some((item.0.as_str(), &item.1))
    }

    /// The number of bindings not given yet.
    pub fn len(&self) -> (n: usize)
        requires
            self.wf(),
        ensures
            n == self.remaining().len(),
    {
        self.back - self.front
    }
}

/// Evaluating two lists of directives one after the other is evaluating
/// the two lists joined: a configuration may be read in pieces.
pub proof fn lemma_apply_directives_concat(st: ReadView, term: Seq<char>, a: Seq<DirectiveView>, b: Seq<DirectiveView>)
    ensures
        apply_directives(st, term, a + b) == apply_directives(apply_directives(st, term, a), term, b),
    decreases b.len(),
{
    if b.len() == 0 {
        assert(a + b =~= a);
    } else {
        let ab = a + b;
        assert(ab.subrange(0, ab.len() - 1) =~= a + b.subrange(0, b.len() - 1));
        assert(ab[ab.len() - 1] == b[b.len() - 1]);
        lemma_apply_directives_concat(st, term, a, b.subrange(0, b.len() - 1));
    }
}

/// The shorter of two timeouts, in milliseconds, where `None` is no limit.
pub fn limit_duration(dur: Option<u64>, max: Option<u64>) -> (r: Option<u64>)
    ensures
        r == match (dur, max) {
            (None, m) => m,
            (d, None) => d,
            (Some(d), Some(m)) => Some(if d <= m { d } else { m }),
        },
{
    match (dur, max) {
        (dur, None) => dur,
        (None, dur) => dur,
        (Some(dur), Some(max)) => Some(if dur <= max { dur } else { max }),
    }
}

/// The bindings as `bind_sequence` and `unbind_sequence` leave them: a
/// sequence just bound finds its command, the other sequences keep theirs,
/// and unbinding a sequence that was not bound before undoes the binding.
pub proof fn lemma_bind_unbind(
    bindings: Map<Seq<char>, CommandView>,
    seq: Seq<char>,
    other: Seq<char>,
    cmd: CommandView,
)
    requires
        other != seq,
    ensures
        bindings.insert(seq, cmd).contains_key(seq),
        bindings.insert(seq, cmd)[seq] == cmd,
        bindings.insert(seq, cmd).contains_key(other) == bindings.contains_key(other),
        bindings.contains_key(other) ==> bindings.insert(seq, cmd)[other] == bindings[other],
        !bindings.insert(seq, cmd).remove(seq).contains_key(seq),
        !bindings.contains_key(seq) ==> bindings.insert(seq, cmd).remove(seq) == bindings,
{
    if !bindings.contains_key(seq) {
        assert(bindings.insert(seq, cmd).remove(seq) =~= bindings);
    }
}

} // verus!
