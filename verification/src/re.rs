//! Regular expressions, compiled and run by the `regex` crate.
//!
//! What a pattern matches is not restated here: the contracts name the
//! results of `regex`'s calls and tie them to the pattern and the text.
use vstd::prelude::*;

use crate::text::strings_view;

verus! {

#[verifier::external_type_specification]
#[verifier::external_body]
pub struct ExRegex(regex::Regex);

/// Whether `pattern` compiles as a regular expression (`regex::Regex::new`
/// returns `Ok`).
pub uninterp spec fn regex_compiles(pattern: Seq<char>) -> bool;

/// Whether the regular expression compiled from `pattern` matches somewhere
/// in `text` (`regex::Regex::is_match`).
pub uninterp spec fn regex_is_match(pattern: Seq<char>, text: Seq<char>) -> bool;

/// For each of the successive matches of `pattern` in `text`
/// (`regex::Regex::captures_iter`), the text of its first capture group,
/// or `None` when that group takes no part in the match.
pub uninterp spec fn regex_group_one(pattern: Seq<char>, text: Seq<char>) -> Seq<Option<Seq<char>>>;

/// The texts that are there, in order.
pub open spec fn present(s: Seq<Option<Seq<char>>>) -> Seq<Seq<char>>
    decreases s.len(),
{
    if s.len() == 0 {
        Seq::empty()
    } else {
        let r = present(s.drop_last());
        match s.last() {
            Some(x) => r.push(x),
            None => r,
        }
    }
}

/// The texts of the first capture group of the successive matches of
/// `pattern` in `text`, leaving out matches in which that group takes no
/// part.
pub open spec fn regex_first_groups(pattern: Seq<char>, text: Seq<char>) -> Seq<Seq<char>> {
    present(regex_group_one(pattern, text))
}

/// The views of a list of optional strings.
pub open spec fn optional_strings_view(v: Seq<Option<String>>) -> Seq<Option<Seq<char>>> {
    v.map_values(|o: Option<String>| match o {
        Some(s) => Some(s@),
        None => None,
    })
}

/// For each of the successive matches of `pattern` in `text`
/// (`regex::Regex::captures_iter`), the texts of its first and second
/// capture groups, each `None` when that group takes no part in the match.
pub uninterp spec fn regex_two_groups(pattern: Seq<char>, text: Seq<char>) -> Seq<(Option<Seq<char>>, Option<Seq<char>>)>;

/// The pairs in which both texts are there, in order.
pub open spec fn both_present(s: Seq<(Option<Seq<char>>, Option<Seq<char>>)>) -> Seq<(Seq<char>, Seq<char>)>
    decreases s.len(),
{
    if s.len() == 0 {
        Seq::empty()
    } else {
        let r = both_present(s.drop_last());
        match s.last() {
            (Some(a), Some(b)) => r.push((a, b)),
            _ => r,
        }
    }
}

/// The texts of the first and second capture groups of the successive
/// matches of `pattern` in `text`, leaving out matches in which either
/// takes no part.
pub open spec fn regex_group_pairs(pattern: Seq<char>, text: Seq<char>) -> Seq<(Seq<char>, Seq<char>)> {
    both_present(regex_two_groups(pattern, text))
}

/// The views of a list of pairs of optional strings.
pub open spec fn optional_pairs_view(v: Seq<(Option<String>, Option<String>)>) -> Seq<(Option<Seq<char>>, Option<Seq<char>>)> {
    v.map_values(|p: (Option<String>, Option<String>)| (
        match p.0 {
            Some(s) => Some(s@),
            None => None,
        },
        match p.1 {
            Some(s) => Some(s@),
            None => None,
        },
    ))
}

/// The views of a list of pairs of strings.
pub open spec fn pairs_view(v: Seq<(String, String)>) -> Seq<(Seq<char>, Seq<char>)> {
    v.map_values(|p: (String, String)| (p.0@, p.1@))
}

/// `text` with every match of `pattern` replaced by `rep`, in which `$name`
/// and `$1` stand for capture groups (`regex::Regex::replace_all`).
pub uninterp spec fn regex_replace_all(pattern: Seq<char>, text: Seq<char>, rep: Seq<char>) -> Seq<char>;

/// A compiled regular expression, with the pattern it was compiled from.
pub struct Pattern {
    pub(crate) re: regex::Regex,
    /// The text of the pattern.
    pub(crate) source: Ghost<Seq<char>>,
}

/// Compiles `ptn`.
///
/// Calls `regex::Regex::new`; the contract claims that it succeeds exactly
/// when `regex_compiles` holds of the pattern, and that the result remembers
/// the pattern. Why a pattern fails to compile is not kept.
#[verifier::external_body]
pub(crate) fn compile(ptn: &str) -> (r: Option<Pattern>)
    ensures
        r is Some <==> regex_compiles(ptn@),
        r matches Some(p) ==> p.source@ == ptn@,
{
    match regex::Regex::new(ptn) {
        Ok(re) => Some(Pattern { re, source: Ghost(ptn@) }),
        Err(_) => None,
    }
}

impl Pattern {
    /// Whether the pattern matches somewhere in `text`.
    ///
    /// Calls `regex::Regex::is_match`; the contract names its result.
    #[verifier::external_body]
    pub(crate) fn is_match(&self, text: &str) -> (b: bool)
        ensures
            b == regex_is_match(self.source@, text@),
    {
        self.re.is_match(text)
    }

    /// Group 1 of each match of the pattern in `text`, where it takes part.
    ///
    /// Calls `regex::Regex::captures_iter` and reads group 1 of each
    /// capture; the contract names the result.
    #[verifier::external_body]
    fn group_one_of_each(&self, text: &str) -> (r: Vec<Option<String>>)
        ensures
            optional_strings_view(r@) == regex_group_one(self.source@, text@),
    {
        self.re.captures_iter(text).map(|c| c.get(1).map(|m| m.as_str().to_string())).collect()
    }

    /// The first capture group of each match of the pattern in `text`,
    /// leaving out matches in which it takes no part.
    pub(crate) fn first_groups(&self, text: &str) -> (r: Vec<String>)
        ensures
            strings_view(r@) == regex_first_groups(self.source@, text@),
    {
        let groups = self.group_one_of_each(text);
        let ghost g = optional_strings_view(groups@);
        let mut r: Vec<String> = Vec::new();
        let mut i: usize = 0;
        while i < groups.len()
            invariant
                i <= groups@.len(),
                g == optional_strings_view(groups@),
                strings_view(r@) == present(g.take(i as int)),
            decreases groups@.len() - i,
        {
            proof {
                assert(g.take(i + 1).drop_last() =~= g.take(i as int));
            }
            let ghost before = strings_view(r@);
            match &groups[i] {
                Some(s) => {
                    r.push(s.clone());
                    proof {
                        assert(strings_view(r@) =~= before.push(s@));
                    }
                },
                None => {},
            }
            i = i + 1;
        }
        proof {
            assert(g.take(g.len() as int) =~= g);
        }
        r
    }

    /// Groups 1 and 2 of each match of the pattern in `text`, where they
    /// take part.
    ///
    /// Calls `regex::Regex::captures_iter` and reads groups 1 and 2 of each
    /// capture; the contract names the result.
    #[verifier::external_body]
    fn two_groups_of_each(&self, text: &str) -> (r: Vec<(Option<String>, Option<String>)>)
        ensures
            optional_pairs_view(r@) == regex_two_groups(self.source@, text@),
    {
        self.re.captures_iter(text).map(|c| (
            c.get(1).map(|m| m.as_str().to_string()),
            c.get(2).map(|m| m.as_str().to_string()),
        )).collect()
    }

    /// The first and second capture groups of each match of the pattern in
    /// `text`, leaving out matches in which either takes no part.
    pub(crate) fn group_pairs(&self, text: &str) -> (r: Vec<(String, String)>)
        ensures
            pairs_view(r@) == regex_group_pairs(self.source@, text@),
    {
        let groups = self.two_groups_of_each(text);
        let ghost g = optional_pairs_view(groups@);
        let mut r: Vec<(String, String)> = Vec::new();
        let mut i: usize = 0;
        while i < groups.len()
            invariant
                i <= groups@.len(),
                g == optional_pairs_view(groups@),
                pairs_view(r@) == both_present(g.take(i as int)),
            decreases groups@.len() - i,
        {
            proof {
                assert(g.take(i + 1).drop_last() =~= g.take(i as int));
            }
            let ghost before = pairs_view(r@);
            match &groups[i] {
                (Some(a), Some(b)) => {
                    r.push((a.clone(), b.clone()));
                    proof {
                        assert(pairs_view(r@) =~= before.push((a@, b@)));
                    }
                },
                _ => {},
            }
            i = i + 1;
        }
        proof {
            assert(g.take(g.len() as int) =~= g);
        }
        r
    }

    /// `text` with every match of the pattern replaced by `rep`.
    ///
    /// Calls `regex::Regex::replace_all`; the contract names its result and
    /// adds what the crate documents: a text the pattern does not match
    /// comes back unchanged.
    #[verifier::external_body]
    pub(crate) fn replace_all(&self, text: &str, rep: &str) -> (r: String)
        ensures
            r@ == regex_replace_all(self.source@, text@, rep@),
            !regex_is_match(self.source@, text@) ==> r@ == text@,
    {
        self.re.replace_all(text, rep).to_string()
    }
}

/// The text of the first capture group of the first match of `pattern` in
/// `text` in which the group takes part.
pub open spec fn first_group(pattern: Seq<char>, text: Seq<char>) -> Option<Seq<char>> {
    if regex_compiles(pattern) && regex_first_groups(pattern, text).len() > 0 {
        Some(regex_first_groups(pattern, text)[0])
    } else {
        None
    }
}

/// The first capture group of the first match of `ptn` in `text`; `None`
/// when there is none or the pattern does not compile.
pub fn find_first_group(ptn: &str, text: &str) -> (r: Option<String>)
    ensures
        match first_group(ptn@, text@) {
            Some(g) => r matches Some(s) && s@ == g,
            None => r is None,
        },
{
    let re = match compile(ptn) {
        Some(re) => re,
        None => return None,
    };
    let groups = re.first_groups(text);
    if groups.len() > 0 {
        Some(groups[0].clone())
    } else {
        None
    }
}

/// `text` with every match of `ptn` replaced by `rep`; `text` unchanged
/// when the pattern does not compile.
pub fn replace_all(text: &str, ptn: &str, rep: &str) -> (r: String)
    ensures
        r@ == if regex_compiles(ptn@) {
            regex_replace_all(ptn@, text@, rep@)
        } else {
            text@
        },
{
    match compile(ptn) {
        Some(re) => re.replace_all(text, rep),
        None => text.to_string(),
    }
}

/// The first and second capture groups of the matches of `ptn` in `text`
/// in which both take part; none when the pattern does not compile.
pub fn find_group_pairs(ptn: &str, text: &str) -> (r: Vec<(String, String)>)
    ensures
        pairs_view(r@) == if regex_compiles(ptn@) {
            regex_group_pairs(ptn@, text@)
        } else {
            Seq::empty()
        },
{
    match compile(ptn) {
        Some(re) => re.group_pairs(text),
        None => {
            let r: Vec<(String, String)> = Vec::new();
            assert(pairs_view(r@) =~= Seq::empty());
            r
        },
    }
}

/// Whether the regular expression `ptn` matches somewhere in `text`; a
/// pattern that does not compile matches nothing.
pub fn re_contains(text: &str, ptn: &str) -> (b: bool)
    ensures
        b == (regex_compiles(ptn@) && regex_is_match(ptn@, text@)),
{
    match compile(ptn) {
        Some(re) => re.is_match(text),
        None => false,
    }
}

} // verus!
