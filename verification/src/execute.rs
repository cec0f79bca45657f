//! Command lists: `a ; b`, `a && b`, `a || b`; and the variable
//! assignments that lead a command.
use vstd::prelude::*;

use crate::builtins::export::{export_pairs, EXPORT_PAIR};
use crate::re::{find_group_pairs, pairs_view, re_contains, regex_compiles, regex_is_match};
use crate::text::{str_eq, str_len};

verus! {

/// What to do with the next item of a command list.
#[derive(Clone, Copy, Debug, PartialEq, Eq, Structural)]
pub enum ChainAction {
    /// A separator: remember it and go on.
    Separator,
    /// Run the command.
    Run,
    /// Stop: the list ends here.
    Stop,
}

/// Which separator stands before the next command.
#[derive(Clone, Copy, Debug, PartialEq, Eq, Structural)]
pub enum Sep {
    Nothing,
    Semicolon,
    And,
    Or,
}

/// The state of a command list being run: the last separator seen and the
/// status of the last command run.
pub struct CommandChain {
    pub sep: Sep,
    pub status: i32,
}

/// The separator that `token` is, if it is one.
pub open spec fn sep_of(token: Seq<char>) -> Option<Sep> {
    if token == ";"@ {
        Some(Sep::Semicolon)
    } else if token == "&&"@ {
        Some(Sep::And)
    } else if token == "||"@ {
        Some(Sep::Or)
    } else {
        None
    }
}

/// What the next item `token` asks for: a separator is remembered; a
/// command after `&&` when the last one failed, or after `||` when it
/// succeeded, ends the list; any other command runs.
pub open spec fn chain_step(sep: Sep, status: i32, token: Seq<char>) -> (Sep, ChainAction) {
    match sep_of(token) {
        Some(s) => (s, ChainAction::Separator),
        None => if sep == Sep::And && status != 0 {
            (sep, ChainAction::Stop)
        } else if sep == Sep::Or && status == 0 {
            (sep, ChainAction::Stop)
        } else {
            (sep, ChainAction::Run)
        },
    }
}

impl CommandChain {
    /// A list not yet started: no separator, status 0.
    pub fn new() -> (c: CommandChain)
        ensures
            c.sep == Sep::Nothing,
            c.status == 0,
    {
        CommandChain { sep: Sep::Nothing, status: 0 }
    }

    /// What to do with the next item `token` (see `chain_step`).
    pub fn step(&mut self, token: &str) -> (a: ChainAction)
        ensures
            (final(self).sep, a) == chain_step(old(self).sep, old(self).status, token@),
            final(self).status == old(self).status,
    {
        if str_eq(token, ";") {
            self.sep = Sep::Semicolon;
            ChainAction::Separator
        } else if str_eq(token, "&&") {
            self.sep = Sep::And;
            ChainAction::Separator
        } else if str_eq(token, "||") {
            self.sep = Sep::Or;
            ChainAction::Separator
        } else if self.sep == Sep::And && self.status != 0 {
            ChainAction::Stop
        } else if self.sep == Sep::Or && self.status == 0 {
            ChainAction::Stop
        } else {
            ChainAction::Run
        }
    }

    /// Records the status of the command just run.
    pub fn finished(&mut self, status: i32)
        ensures
            final(self).sep == old(self).sep,
            final(self).status == status,
    {
        self.status = status;
    }
}

/// A command after `&&` runs only if the command before it succeeded, and
/// one after `||` only if it failed.
pub proof fn lemma_chain_conditions(sep: Sep, status: i32, token: Seq<char>)
    ensures
        chain_step(sep, status, token).1 == ChainAction::Run && sep == Sep::And ==> status == 0,
        chain_step(sep, status, token).1 == ChainAction::Run && sep == Sep::Or ==> status != 0,
{
}


/// Where a command list stands after its first `k` items: the separator
/// and status a `CommandChain` holds, the indices of the items run so far,
/// and whether the list has ended. The `j`-th command run returns
/// `statuses[j]`.
pub struct ChainRun {
    pub sep: Sep,
    pub status: i32,
    pub ran: Seq<int>,
    pub stopped: bool,
}

/// The command list `items` after its first `k` items, the commands run
/// returning `statuses` in turn (a command past them returns 0).
pub open spec fn chain_run(items: Seq<Seq<char>>, statuses: Seq<i32>, k: nat) -> ChainRun
    decreases k,
{
    if k == 0 {
        ChainRun { sep: Sep::Nothing, status: 0, ran: Seq::empty(), stopped: false }
    } else {
        let st = chain_run(items, statuses, (k - 1) as nat);
        if st.stopped || k > items.len() {
            st
        } else {
            let (sep, act) = chain_step(st.sep, st.status, items[k - 1]);
            match act {
                ChainAction::Separator => ChainRun { sep, ..st },
                ChainAction::Stop => ChainRun { stopped: true, ..st },
                ChainAction::Run => ChainRun {
                    ran: st.ran.push(k - 1),
                    status: if st.ran.len() < statuses.len() { statuses[st.ran.len() as int] } else { 0 },
                    ..st
                },
            }
        }
    }
}

/// A command list runs its commands left to right, each at most once and
/// never a separator; once it ends it runs nothing more; and the status it
/// leaves is that of the last command run.
pub proof fn lemma_chain_run(items: Seq<Seq<char>>, statuses: Seq<i32>, k: nat)
    ensures
        forall|i: int, j: int|
            0 <= i < j < chain_run(items, statuses, k).ran.len() ==> #[trigger] chain_run(items, statuses, k).ran[i]
                < #[trigger] chain_run(items, statuses, k).ran[j],
        forall|i: int|
            0 <= i < chain_run(items, statuses, k).ran.len() ==> 0 <= #[trigger] chain_run(items, statuses, k).ran[i]
                < k && chain_run(items, statuses, k).ran[i] < items.len() && sep_of(
                items[chain_run(items, statuses, k).ran[i]],
            ) is None,
        chain_run(items, statuses, k).stopped ==> chain_run(items, statuses, k + 1) == chain_run(items, statuses, k),
        0 < chain_run(items, statuses, k).ran.len() <= statuses.len() ==> chain_run(items, statuses, k).status
            == statuses[chain_run(items, statuses, k).ran.len() - 1],
        chain_run(items, statuses, k).ran.len() == 0 ==> chain_run(items, statuses, k).status == 0,
    decreases k,
{
    if k > 0 {
        lemma_chain_run(items, statuses, (k - 1) as nat);
        let st = chain_run(items, statuses, (k - 1) as nat);
        let r = chain_run(items, statuses, k);
        if !(st.stopped || k > items.len()) {
            let (sep, act) = chain_step(st.sep, st.status, items[k - 1]);
            if act == ChainAction::Run {
                assert(r.ran == st.ran.push(k - 1));
                assert forall|i: int, j: int| 0 <= i < j < r.ran.len() implies #[trigger] r.ran[i] < #[trigger] r.ran[j] by {
                    if j == r.ran.len() - 1 {
                        assert(r.ran[i] == st.ran[i]);
                    } else {
                        assert(r.ran[i] == st.ran[i] && r.ran[j] == st.ran[j]);
                    }
                }
                assert forall|i: int| 0 <= i < r.ran.len() implies 0 <= #[trigger] r.ran[i] < k && r.ran[i]
                    < items.len() && sep_of(items[r.ran[i]]) is None by {
                    if i < st.ran.len() {
                        assert(r.ran[i] == st.ran[i]);
                    }
                }
            }
        }
    }
}

/// The items of a command list that run, in order, and the status left,
/// when the commands run return `statuses` in turn.
pub fn chain_runs(items: &Vec<String>, statuses: &Vec<i32>) -> (r: (Vec<usize>, i32))
    ensures
        r.0@.map_values(|i: usize| i as int) == chain_run(items@.map_values(|s: String| s@), statuses@, items@.len() as nat).ran,
        r.1 == chain_run(items@.map_values(|s: String| s@), statuses@, items@.len() as nat).status,
{
    let ghost iv = items@.map_values(|s: String| s@);
    let mut chain = CommandChain::new();
    let mut ran: Vec<usize> = Vec::new();
    let mut stopped = false;
    let mut k: usize = 0;
    while k < items.len()
        invariant
            iv == items@.map_values(|s: String| s@),
            k <= items@.len(),
            ({
                let st = chain_run(iv, statuses@, k as nat);
                &&& st.sep == chain.sep
                &&& st.status == chain.status
                &&& st.stopped == stopped
                &&& ran@.map_values(|i: usize| i as int) == st.ran
            }),
        decreases items@.len() - k,
    {
        let ghost st = chain_run(iv, statuses@, k as nat);
        proof {
            assert(iv[k as int] == items@[k as int]@);
        }
        if !stopped {
            let a = chain.step(items[k].as_str());
            match a {
                ChainAction::Separator => {},
                ChainAction::Stop => {
                    stopped = true;
                },
                ChainAction::Run => {
                    let n = ran.len();
                    let status = if n < statuses.len() {
                        statuses[n]
                    } else {
                        0
                    };
                    chain.finished(status);
                    let ghost before = ran@;
                    ran.push(k);
                    proof {
                        assert(before.map_values(|i: usize| i as int).len() == n);
                        assert(ran@.map_values(|i: usize| i as int) =~= before.map_values(|i: usize| i as int).push(
                            k as int,
                        ));
                    }
                },
            }
        }
        k = k + 1;
    }
    let status = chain.status;
    (ran, status)
}

/// Whether the token `t` (its quote and its text) assigns a variable for
/// the command: it is unquoted and has the form `NAME=value`.
pub open spec fn assigns(t: (Seq<char>, Seq<char>)) -> bool {
    t.0.len() == 0 && regex_compiles(EXPORT_PAIR@) && regex_is_match(EXPORT_PAIR@, t.1)
}

/// How many tokens from `i` on assign variables before the first that
/// does not.
pub open spec fn assignments_from(tokens: Seq<(Seq<char>, Seq<char>)>, i: int) -> nat
    decreases tokens.len() - i,
{
    if 0 <= i < tokens.len() && assigns(tokens[i]) {
        1 + assignments_from(tokens, i + 1)
    } else {
        0
    }
}

/// The names and values that the first `k` tokens assign, in order.
pub open spec fn assigned_pairs(tokens: Seq<(Seq<char>, Seq<char>)>, k: int) -> Seq<(Seq<char>, Seq<char>)>
    decreases k,
{
    if k <= 0 || k > tokens.len() {
        Seq::empty()
    } else {
        assigned_pairs(tokens, k - 1) + export_pairs(tokens[k - 1].1)
    }
}

/// The tokens as plain values.
pub open spec fn tokens_view(v: Seq<(String, String)>) -> Seq<(Seq<char>, Seq<char>)> {
    v.map_values(|t: (String, String)| (t.0@, t.1@))
}

proof fn lemma_assignments_from(tokens: Seq<(Seq<char>, Seq<char>)>, j: int, i: int)
    requires
        0 <= j <= i <= tokens.len(),
        forall|k: int| j <= k < i ==> assigns(#[trigger] tokens[k]),
        i == tokens.len() || !assigns(tokens[i]),
    ensures
        assignments_from(tokens, j) == i - j,
    decreases i - j,
{
    if j < i {
        lemma_assignments_from(tokens, j + 1, i);
    }
}

/// The variables that the leading tokens of a command assign (`NAME=value`
/// words before the first other word), with the values as written, and how
/// many tokens they take: those are taken off the command.
pub fn leading_assignments(tokens: &Vec<(String, String)>) -> (r: (Vec<(String, String)>, usize))
    ensures
        r.1 == assignments_from(tokens_view(tokens@), 0),
        pairs_view(r.0@) == assigned_pairs(tokens_view(tokens@), r.1 as int),
{
    let ghost tv = tokens_view(tokens@);
    let mut pairs: Vec<(String, String)> = Vec::new();
    let mut i: usize = 0;
    let mut stop = false;
    assert(pairs_view(pairs@) =~= assigned_pairs(tv, 0));
    while i < tokens.len() && !stop
        invariant
            i <= tokens@.len(),
            tv == tokens_view(tokens@),
            forall|k: int| 0 <= k < i ==> assigns(#[trigger] tv[k]),
            pairs_view(pairs@) == assigned_pairs(tv, i as int),
            stop ==> i < tokens@.len() && !assigns(tv[i as int]),
        decreases tokens@.len() - i, if stop { 0int } else { 1int },
    {
        proof {
            assert(tv[i as int] == (tokens@[i as int].0@, tokens@[i as int].1@));
        }
        let text = tokens[i].1.as_str();
        if !(str_len(tokens[i].0.as_str()) == 0 && re_contains(text, EXPORT_PAIR)) {
            stop = true;
            continue;
        }
        let found = find_group_pairs(EXPORT_PAIR, text);
        let ghost before = pairs_view(pairs@);
        let mut k: usize = 0;
        while k < found.len()
            invariant
                k <= found@.len(),
                pairs_view(pairs@) == before + pairs_view(found@).take(k as int),
            decreases found@.len() - k,
        {
            let name = found[k].0.clone();
            let value = found[k].1.clone();
            let ghost prev = pairs_view(pairs@);
            pairs.push((name, value));
            proof {
                assert(pairs_view(pairs@) =~= prev.push((name@, value@)));
                assert(pairs_view(found@).take(k + 1) =~= pairs_view(found@).take(k as int).push((name@, value@)));
            }
            k = k + 1;
        }
        proof {
            assert(pairs_view(found@).take(found@.len() as int) =~= pairs_view(found@));
            assert(pairs_view(pairs@) =~= assigned_pairs(tv, i + 1));
        }
        i = i + 1;
    }
    proof {
        lemma_assignments_from(tv, 0, i as int);
    }
    (pairs, i)
}

} // verus!
