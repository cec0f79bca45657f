//! The `check` builtin: what kind of file a command is.
use vstd::prelude::*;

use crate::linefeed::chars::{contains_lit, contains_seq};
use crate::text::{chars_of, is_whitespace, is_ws};

verus! {

/// The text that `String::from_utf8_lossy` makes of `b`: its UTF-8
/// decoding, with U+FFFD in place of each invalid sequence.
pub uninterp spec fn utf8_lossy(b: Seq<u8>) -> Seq<char>;

/// Decodes bytes as UTF-8, replacing invalid sequences.
///
/// Calls `String::from_utf8_lossy`. The contract claims only that the result
/// is what that function makes of these bytes; the decoding is named, not
/// stated.
#[verifier::external_body]
fn decode_lossy(b: &[u8]) -> (s: String)
    ensures
        s@ == utf8_lossy(b@),
{
    String::from_utf8_lossy(b).into_owned()
}

/// `b` starts with the bytes `p`.
pub open spec fn starts_with_bytes(b: Seq<u8>, p: Seq<u8>) -> bool {
    p.len() <= b.len() && b.take(p.len() as int) == p
}

/// A text byte: tab, newline, carriage return or printable ASCII.
pub open spec fn is_text_byte(c: u8) -> bool {
    c == 9 || c == 10 || c == 13 || (0x20 <= c < 0x7f)
}

/// The word of `s` that starts at or after `i`, and where it ends.
pub open spec fn word_from(s: Seq<char>, i: int) -> (Seq<char>, int)
    decreases s.len() - i, 1int,
{
    if 0 <= i < s.len() && is_ws(s[i]) {
        word_from(s, i + 1)
    } else {
        let e = word_end(s, i);
        (s.subrange(i, e), e)
    }
}

/// The end of the run of non-whitespace characters at `i`.
pub open spec fn word_end(s: Seq<char>, i: int) -> int
    decreases s.len() - i, 0int,
{
    if 0 <= i < s.len() && !is_ws(s[i]) {
        word_end(s, i + 1)
    } else {
        i
    }
}

/// The interpreter that a first line `line` (after `#!`) names: its first
/// word, or the second when the first is a path ending in `/env`.
pub open spec fn interpreter_of(line: Seq<char>) -> Seq<char> {
    let (first, e) = word_from(line, 0);
    if first.len() >= 4 && first.skip(first.len() - 4) == "/env"@ {
        word_from(line, e).0
    } else {
        first
    }
}

/// What kind of script an interpreter name makes.
pub open spec fn script_kind(s: Seq<char>) -> Seq<char> {
    if contains_seq(s, "python"@) {
        "Python script"@
    } else if contains_seq(s, "bash"@) {
        "Bash script"@
    } else if contains_seq(s, "ruby"@) {
        "Ruby script"@
    } else if contains_seq(s, "perl"@) {
        "Perl script"@
    } else if contains_seq(s, "node"@) {
        "Node.js script"@
    } else if contains_seq(s, "php"@) {
        "PHP script"@
    } else if contains_seq(s, "lua"@) {
        "Lua script"@
    } else if contains_seq(s, "zsh"@) {
        "Zsh script"@
    } else if contains_seq(s, "fish"@) {
        "Fish script"@
    } else if contains_seq(s, "awk"@) {
        "AWK script"@
    } else if contains_seq(s, "sh"@) {
        "shell script"@
    } else {
        "script"@
    }
}

/// The index of the first newline in `b`, or its length.
pub open spec fn line_end(b: Seq<u8>, i: int) -> int
    decreases b.len() - i,
{
    if 0 <= i < b.len() && b[i] != 10 {
        line_end(b, i + 1)
    } else {
        i
    }
}

/// The kind of a file whose first bytes are `b`.
pub open spec fn file_type_spec(b: Seq<u8>) -> Seq<char> {
    if b.len() == 0 {
        "empty"@
    } else if starts_with_bytes(b, seq![0x23u8, 0x21u8]) {
        script_kind(interpreter_of(utf8_lossy(b.subrange(2, line_end(b, 0)))))
    } else if starts_with_bytes(b, seq![0x7fu8, 0x45u8, 0x4cu8, 0x46u8]) {
        if b.len() > 4 && b[4] == 1 {
            "ELF 32-bit executable"@
        } else if b.len() > 4 && b[4] == 2 {
            "ELF 64-bit executable"@
        } else {
            "ELF executable"@
        }
    } else if starts_with_bytes(b, seq![0xfeu8, 0xedu8, 0xfau8, 0xceu8]) || starts_with_bytes(b, seq![0xceu8, 0xfau8, 0xedu8, 0xfeu8]) {
        "Mach-O 32-bit executable"@
    } else if starts_with_bytes(b, seq![0xfeu8, 0xedu8, 0xfau8, 0xcfu8]) || starts_with_bytes(b, seq![0xcfu8, 0xfau8, 0xedu8, 0xfeu8]) {
        "Mach-O 64-bit executable"@
    } else if starts_with_bytes(b, seq![0xcau8, 0xfeu8, 0xbau8, 0xbeu8]) {
        "Mach-O universal executable"@
    } else if starts_with_bytes(b, seq![0x4du8, 0x5au8]) {
        "PE executable"@
    } else if starts_with_bytes(b, seq![0x1fu8, 0x8bu8]) {
        "gzip compressed data"@
    } else if starts_with_bytes(b, seq![0x50u8, 0x4bu8, 0x03u8, 0x04u8]) {
        "Zip archive"@
    } else if b.len() >= 262 && b.subrange(257, 262) == seq![0x75u8, 0x73u8, 0x74u8, 0x61u8, 0x72u8] {
        "POSIX tar archive"@
    } else if forall|i: int| 0 <= i < b.len() ==> is_text_byte(#[trigger] b[i]) {
        "ASCII text"@
    } else {
        "data"@
    }
}

/// Whether `b` starts with the bytes `p`.
fn has_prefix_bytes(b: &[u8], p: Vec<u8>) -> (r: bool)
    ensures
        r == starts_with_bytes(b@, p@),
{
    if p.len() > b.len() {
        return false;
    }
    let mut i: usize = 0;
    while i < p.len()
        invariant
            p@.len() <= b@.len(),
            i <= p@.len(),
            forall|j: int| 0 <= j < i ==> b@[j] == p@[j],
        decreases p@.len() - i,
    {
        if b[i] != p[i] {
            assert(b@.take(p@.len() as int)[i as int] != p@[i as int]);
            return false;
        }
        i = i + 1;
    }
    assert(b@.take(p@.len() as int) =~= p@);
    true
}

/// The word of `v` at or after `i`, and where it ends.
fn next_word(v: &Vec<char>, i: usize) -> (r: (Vec<char>, usize))
    requires
        i <= v@.len(),
    ensures
        r.0@ == word_from(v@, i as int).0,
        r.1 == word_from(v@, i as int).1,
        i <= r.1 <= v@.len(),
{
    let mut a = i;
    while a < v.len() && is_whitespace(v[a])
        invariant
            i <= a <= v@.len(),
            word_from(v@, i as int) == word_from(v@, a as int),
        decreases v@.len() - a,
    {
        a = a + 1;
    }
    let mut e = a;
    while e < v.len() && !is_whitespace(v[e])
        invariant
            a <= e <= v@.len(),
            word_end(v@, a as int) == word_end(v@, e as int),
        decreases v@.len() - e,
    {
        e = e + 1;
    }
    (crate::text::copy_range(v, a, e), e)
}

/// Exec form of `script_kind`.
fn script_kind_of(s: &Vec<char>) -> (r: &'static str)
    ensures
        r@ == script_kind(s@),
{
    if contains_lit(s, "python") {
        "Python script"
    } else if contains_lit(s, "bash") {
        "Bash script"
    } else if contains_lit(s, "ruby") {
        "Ruby script"
    } else if contains_lit(s, "perl") {
        "Perl script"
    } else if contains_lit(s, "node") {
        "Node.js script"
    } else if contains_lit(s, "php") {
        "PHP script"
    } else if contains_lit(s, "lua") {
        "Lua script"
    } else if contains_lit(s, "zsh") {
        "Zsh script"
    } else if contains_lit(s, "fish") {
        "Fish script"
    } else if contains_lit(s, "awk") {
        "AWK script"
    } else if contains_lit(s, "sh") {
        "shell script"
    } else {
        "script"
    }
}

/// What kind of script a file whose first bytes are `b` (starting with
/// `#!`) is, by the interpreter its first line names.
fn detect_script(b: &[u8]) -> (r: &'static str)
    requires
        b@.len() >= 2,
        b@[0] == 0x23u8,
        b@[1] == 0x21u8,
    ensures
        r@ == script_kind(interpreter_of(utf8_lossy(b@.subrange(2, line_end(b@, 0))))),
{
    let mut end: usize = 0;
    while end < b.len() && b[end] != 10
        invariant
            end <= b@.len(),
            line_end(b@, 0) == line_end(b@, end as int),
        decreases b@.len() - end,
    {
        end = end + 1;
    }
    let line = decode_lossy(vstd::slice::slice_subrange(b, 2, end));
    let v = chars_of(line.as_str());
    let (first, e) = next_word(&v, 0);
    let n = first.len();
    let ends_env = n >= 4 && first[n - 4] == '/' && first[n - 3] == 'e' && first[n - 2] == 'n' && first[n - 1] == 'v';
    proof {
        reveal_strlit("/env");
        if n >= 4 {
            assert(ends_env == (first@.skip(n - 4) == "/env"@)) by {
                if first@.skip(n - 4) == "/env"@ {
                    assert(first@.skip(n - 4)[0] == first@[n - 4]);
                    assert(first@.skip(n - 4)[1] == first@[n - 3]);
                    assert(first@.skip(n - 4)[2] == first@[n - 2]);
                    assert(first@.skip(n - 4)[3] == first@[n - 1]);
                }
                if ends_env {
                    assert(first@.skip(n - 4) =~= "/env"@);
                }
            }
        }
    }
    if ends_env {
        let (second, _) = next_word(&v, e);
        script_kind_of(&second)
    } else {
        script_kind_of(&first)
    }
}

/// Whether every byte of `b` is a text byte.
fn is_text(b: &[u8]) -> (r: bool)
    ensures
        r == forall|i: int| 0 <= i < b@.len() ==> is_text_byte(#[trigger] b@[i]),
{
    let mut i: usize = 0;
    while i < b.len()
        invariant
            i <= b@.len(),
            forall|j: int| 0 <= j < i ==> is_text_byte(#[trigger] b@[j]),
        decreases b@.len() - i,
    {
        let c = b[i];
        if !(c == 9 || c == 10 || c == 13 || (0x20 <= c && c < 0x7f)) {
            assert(!is_text_byte(b@[i as int]));
            return false;
        }
        i = i + 1;
    }
    true
}

/// The kind of a file whose first bytes are `b` (see `file_type_spec`):
/// a script by its interpreter, an executable by its format, an archive,
/// text or data.
pub fn file_type(b: &[u8]) -> (r: &'static str)
    ensures
        r@ == file_type_spec(b@),
{
    if b.len() == 0 {
        return "empty";
    }
    if has_prefix_bytes(b, vec![0x23u8, 0x21u8]) {
        return detect_script(b);
    }
    if has_prefix_bytes(b, vec![0x7fu8, 0x45u8, 0x4cu8, 0x46u8]) {
        return if b.len() > 4 && b[4] == 1 {
            "ELF 32-bit executable"
        } else if b.len() > 4 && b[4] == 2 {
            "ELF 64-bit executable"
        } else {
            "ELF executable"
        };
    }
    if has_prefix_bytes(b, vec![0xfeu8, 0xedu8, 0xfau8, 0xceu8]) || has_prefix_bytes(b, vec![0xceu8, 0xfau8, 0xedu8, 0xfeu8]) {
        return "Mach-O 32-bit executable";
    }
    if has_prefix_bytes(b, vec![0xfeu8, 0xedu8, 0xfau8, 0xcfu8]) || has_prefix_bytes(b, vec![0xcfu8, 0xfau8, 0xedu8, 0xfeu8]) {
        return "Mach-O 64-bit executable";
    }
    if has_prefix_bytes(b, vec![0xcau8, 0xfeu8, 0xbau8, 0xbeu8]) {
        return "Mach-O universal executable";
    }
    if has_prefix_bytes(b, vec![0x4du8, 0x5au8]) {
        return "PE executable";
    }
    if has_prefix_bytes(b, vec![0x1fu8, 0x8bu8]) {
        return "gzip compressed data";
    }
    if has_prefix_bytes(b, vec![0x50u8, 0x4bu8, 0x03u8, 0x04u8]) {
        return "Zip archive";
    }
    if b.len() >= 262 && b[257] == 0x75 && b[258] == 0x73 && b[259] == 0x74 && b[260] == 0x61 && b[261] == 0x72 {
        assert(b@.subrange(257, 262) =~= seq![0x75u8, 0x73u8, 0x74u8, 0x61u8, 0x72u8]);
        return "POSIX tar archive";
    }
    if b.len() >= 262 {
        assert(b@.subrange(257, 262) != seq![0x75u8, 0x73u8, 0x74u8, 0x61u8, 0x72u8]) by {
            let t = seq![0x75u8, 0x73u8, 0x74u8, 0x61u8, 0x72u8];
            if b@.subrange(257, 262) == t {
                assert(b@.subrange(257, 262)[0] == t[0]);
                assert(b@.subrange(257, 262)[1] == t[1]);
                assert(b@.subrange(257, 262)[2] == t[2]);
                assert(b@.subrange(257, 262)[3] == t[3]);
                assert(b@.subrange(257, 262)[4] == t[4]);
            }
        }
    }
    if is_text(b) {
        "ASCII text"
    } else {
        "data"
    }
}

} // verus!
