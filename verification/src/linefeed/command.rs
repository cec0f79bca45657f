//! The set of line editing commands.
use vstd::prelude::*;

use crate::text::slice_eq;
use crate::text::chars_of;
use crate::text::string_of;

verus! {

/// Represents a command to modify the line editor's state.
#[derive(Clone, Debug, Eq, PartialEq)]
pub enum Command {
    /// Abort history search
    Abort,
    /// Accepts the current input line
    AcceptLine,
    /// Perform completion
    Complete,
    /// Insert all completions into the input buffer
    InsertCompletions,
    /// Show possible completions
    PossibleCompletions,
    /// Insert the next possible completion
    MenuComplete,
    /// Insert the previous possible completion
    MenuCompleteBackward,
    /// Begin numeric argument input
    DigitArgument,
    /// Insert character or sequence at the cursor
    SelfInsert,
    /// Inserts a tab character
    TabInsert,
    /// Toggles insert/overwrite mode
    OverwriteMode,
    /// Insert a comment and accept input
    InsertComment,
    /// Move the cursor backward one character
    BackwardChar,
    /// Move the cursor forward one character
    ForwardChar,
    /// Search for a given character
    CharacterSearch,
    /// Search backward for a given character
    CharacterSearchBackward,
    /// Move the cursor backward one word
    BackwardWord,
    /// Move the cursor forward one word
    ForwardWord,
    /// Kill all characters before the cursor
    BackwardKillLine,
    /// Kill all characters after the cursor
    KillLine,
    /// Kill a word before the cursor
    BackwardKillWord,
    /// Kill a word after the cursor
    KillWord,
    /// Kill a word before the cursor, delimited by whitespace
    UnixWordRubout,
    /// Clear the screen
    ClearScreen,
    /// Move the cursor to the beginning of the line
    BeginningOfLine,
    /// Move the cursor to the end of the line
    EndOfLine,
    /// Delete one character before the cursor
    BackwardDeleteChar,
    /// Delete one character after the cursor
    DeleteChar,
    /// Drag the character before the cursor forward
    TransposeChars,
    /// Drag the word before the cursor forward
    TransposeWords,
    /// Move to the first line of history
    BeginningOfHistory,
    /// Move to the last line of history
    EndOfHistory,
    /// Select next line in history
    NextHistory,
    /// Select previous line in history
    PreviousHistory,
    /// Incremental search in history
    ForwardSearchHistory,
    /// Incremental reverse search in history
    ReverseSearchHistory,
    /// Non-incremental forward history search using input up to the cursor
    HistorySearchForward,
    /// Non-incremental backward history search using input up to the cursor
    HistorySearchBackward,
    /// Insert literal character
    QuotedInsert,
    /// Insert text into buffer from the kill ring
    Yank,
    /// Rotate the kill ring and yank the new top
    YankPop,
    /// Custom application-defined command
    Custom(String),
    /// Execute a given key sequence
    Macro(String),
}

/// Mathematical model of a `Command`: a built-in command is its position
/// in the command table, the other two carry their text.
pub enum CommandView {
    /// The built-in command at this position of the command table
    Builtin(nat),
    /// Custom application-defined command
    Custom(Seq<char>),
    /// Execute a given key sequence
    Macro(Seq<char>),
}

/// Number of built-in commands.
pub open spec fn num_builtins() -> nat {
    41
}

/// The name of the built-in command at position `i` of the command table.
pub open spec fn builtin_name(i: nat) -> Seq<char> {
    if i == 0 {
        "abort"@
    } else if i == 1 {
        "accept-line"@
    } else if i == 2 {
        "complete"@
    } else if i == 3 {
        "insert-completions"@
    } else if i == 4 {
        "possible-completions"@
    } else if i == 5 {
        "menu-complete"@
    } else if i == 6 {
        "menu-complete-backward"@
    } else if i == 7 {
        "digit-argument"@
    } else if i == 8 {
        "self-insert"@
    } else if i == 9 {
        "tab-insert"@
    } else if i == 10 {
        "overwrite-mode"@
    } else if i == 11 {
        "insert-comment"@
    } else if i == 12 {
        "backward-char"@
    } else if i == 13 {
        "forward-char"@
    } else if i == 14 {
        "character-search"@
    } else if i == 15 {
        "character-search-backward"@
    } else if i == 16 {
        "backward-word"@
    } else if i == 17 {
        "forward-word"@
    } else if i == 18 {
        "backward-kill-line"@
    } else if i == 19 {
        "kill-line"@
    } else if i == 20 {
        "backward-kill-word"@
    } else if i == 21 {
        "kill-word"@
    } else if i == 22 {
        "unix-word-rubout"@
    } else if i == 23 {
        "clear-screen"@
    } else if i == 24 {
        "beginning-of-line"@
    } else if i == 25 {
        "end-of-line"@
    } else if i == 26 {
        "backward-delete-char"@
    } else if i == 27 {
        "delete-char"@
    } else if i == 28 {
        "transpose-chars"@
    } else if i == 29 {
        "transpose-words"@
    } else if i == 30 {
        "beginning-of-history"@
    } else if i == 31 {
        "end-of-history"@
    } else if i == 32 {
        "next-history"@
    } else if i == 33 {
        "previous-history"@
    } else if i == 34 {
        "forward-search-history"@
    } else if i == 35 {
        "reverse-search-history"@
    } else if i == 36 {
        "history-search-forward"@
    } else if i == 37 {
        "history-search-backward"@
    } else if i == 38 {
        "quoted-insert"@
    } else if i == 39 {
        "yank"@
    } else {
        "yank-pop"@
    }
}

/// The position in the command table of the built-in command named `name`, if any.
pub open spec fn builtin_named(name: Seq<char>) -> Option<nat> {
    if name == "abort"@ {
        Some(0)
    } else if name == "accept-line"@ {
        Some(1)
    } else if name == "complete"@ {
        Some(2)
    } else if name == "insert-completions"@ {
        Some(3)
    } else if name == "possible-completions"@ {
        Some(4)
    } else if name == "menu-complete"@ {
        Some(5)
    } else if name == "menu-complete-backward"@ {
        Some(6)
    } else if name == "digit-argument"@ {
        Some(7)
    } else if name == "self-insert"@ {
        Some(8)
    } else if name == "tab-insert"@ {
        Some(9)
    } else if name == "overwrite-mode"@ {
        Some(10)
    } else if name == "insert-comment"@ {
        Some(11)
    } else if name == "backward-char"@ {
        Some(12)
    } else if name == "forward-char"@ {
        Some(13)
    } else if name == "character-search"@ {
        Some(14)
    } else if name == "character-search-backward"@ {
        Some(15)
    } else if name == "backward-word"@ {
        Some(16)
    } else if name == "forward-word"@ {
        Some(17)
    } else if name == "backward-kill-line"@ {
        Some(18)
    } else if name == "kill-line"@ {
        Some(19)
    } else if name == "backward-kill-word"@ {
        Some(20)
    } else if name == "kill-word"@ {
        Some(21)
    } else if name == "unix-word-rubout"@ {
        Some(22)
    } else if name == "clear-screen"@ {
        Some(23)
    } else if name == "beginning-of-line"@ {
        Some(24)
    } else if name == "end-of-line"@ {
        Some(25)
    } else if name == "backward-delete-char"@ {
        Some(26)
    } else if name == "delete-char"@ {
        Some(27)
    } else if name == "transpose-chars"@ {
        Some(28)
    } else if name == "transpose-words"@ {
        Some(29)
    } else if name == "beginning-of-history"@ {
        Some(30)
    } else if name == "end-of-history"@ {
        Some(31)
    } else if name == "next-history"@ {
        Some(32)
    } else if name == "previous-history"@ {
        Some(33)
    } else if name == "forward-search-history"@ {
        Some(34)
    } else if name == "reverse-search-history"@ {
        Some(35)
    } else if name == "history-search-forward"@ {
        Some(36)
    } else if name == "history-search-backward"@ {
        Some(37)
    } else if name == "quoted-insert"@ {
        Some(38)
    } else if name == "yank"@ {
        Some(39)
    } else if name == "yank-pop"@ {
        Some(40)
    } else {
        None
    }
}

/// The command named by `name`: a built-in one when the name is in the
/// command table, a custom command otherwise.
pub open spec fn command_from_name(name: Seq<char>) -> CommandView {
    match builtin_named(name) {
        Some(i) => CommandView::Builtin(i),
        None => CommandView::Custom(name),
    }
}

impl View for Command {
    type V = CommandView;

    open spec fn view(&self) -> CommandView {
        match self {
            Command::Abort => CommandView::Builtin(0),
            Command::AcceptLine => CommandView::Builtin(1),
            Command::Complete => CommandView::Builtin(2),
            Command::InsertCompletions => CommandView::Builtin(3),
            Command::PossibleCompletions => CommandView::Builtin(4),
            Command::MenuComplete => CommandView::Builtin(5),
            Command::MenuCompleteBackward => CommandView::Builtin(6),
            Command::DigitArgument => CommandView::Builtin(7),
            Command::SelfInsert => CommandView::Builtin(8),
            Command::TabInsert => CommandView::Builtin(9),
            Command::OverwriteMode => CommandView::Builtin(10),
            Command::InsertComment => CommandView::Builtin(11),
            Command::BackwardChar => CommandView::Builtin(12),
            Command::ForwardChar => CommandView::Builtin(13),
            Command::CharacterSearch => CommandView::Builtin(14),
            Command::CharacterSearchBackward => CommandView::Builtin(15),
            Command::BackwardWord => CommandView::Builtin(16),
            Command::ForwardWord => CommandView::Builtin(17),
            Command::BackwardKillLine => CommandView::Builtin(18),
            Command::KillLine => CommandView::Builtin(19),
            Command::BackwardKillWord => CommandView::Builtin(20),
            Command::KillWord => CommandView::Builtin(21),
            Command::UnixWordRubout => CommandView::Builtin(22),
            Command::ClearScreen => CommandView::Builtin(23),
            Command::BeginningOfLine => CommandView::Builtin(24),
            Command::EndOfLine => CommandView::Builtin(25),
            Command::BackwardDeleteChar => CommandView::Builtin(26),
            Command::DeleteChar => CommandView::Builtin(27),
            Command::TransposeChars => CommandView::Builtin(28),
            Command::TransposeWords => CommandView::Builtin(29),
            Command::BeginningOfHistory => CommandView::Builtin(30),
            Command::EndOfHistory => CommandView::Builtin(31),
            Command::NextHistory => CommandView::Builtin(32),
            Command::PreviousHistory => CommandView::Builtin(33),
            Command::ForwardSearchHistory => CommandView::Builtin(34),
            Command::ReverseSearchHistory => CommandView::Builtin(35),
            Command::HistorySearchForward => CommandView::Builtin(36),
            Command::HistorySearchBackward => CommandView::Builtin(37),
            Command::QuotedInsert => CommandView::Builtin(38),
            Command::Yank => CommandView::Builtin(39),
            Command::YankPop => CommandView::Builtin(40),
            Command::Custom(s) => CommandView::Custom(s@),
            Command::Macro(s) => CommandView::Macro(s@),
        }
    }
}

/// Describes the category of a command
///
/// A command's category determines how particular operations behave
/// in succession.
#[derive(Copy, Clone, Debug, PartialEq, Eq, Structural)]
pub enum Category {
    /// Completion command
    Complete,
    /// Kill command
    Kill,
    /// Non-incremental search command
    Search,
    /// Incremental search command
    IncrementalSearch,
    /// Yank command
    Yank,
    /// Digit argument command
    Digit,
    /// Other command
    Other,
}

/// The category of the command with model `c`.
pub open spec fn category_of(c: CommandView) -> Category {
    match c {
        CommandView::Builtin(i) => {
            if i == 2 || i == 3 || i == 4 || i == 5 || i == 6 {
                Category::Complete
            } else if i == 7 {
                Category::Digit
            } else if i == 18 || i == 19 || i == 20 || i == 21 || i == 22 {
                Category::Kill
            } else if i == 34 || i == 35 {
                Category::IncrementalSearch
            } else if i == 36 || i == 37 {
                Category::Search
            } else if i == 39 || i == 40 {
                Category::Yank
            } else {
                Category::Other
            }
        },
        _ => Category::Other,
    }
}

impl Command {
    /// Returns the category of the command
    pub fn category(&self) -> (c: Category)
        ensures
            c == category_of(self@),
    {
        match self {
            Command::Complete | Command::InsertCompletions | Command::PossibleCompletions | Command::MenuComplete | Command::MenuCompleteBackward => Category::Complete,
            Command::DigitArgument => Category::Digit,
            Command::BackwardKillLine | Command::KillLine | Command::BackwardKillWord | Command::KillWord | Command::UnixWordRubout => Category::Kill,
            Command::ForwardSearchHistory | Command::ReverseSearchHistory => Category::IncrementalSearch,
            Command::HistorySearchForward | Command::HistorySearchBackward => Category::Search,
            Command::Yank | Command::YankPop => Category::Yank,
            _ => Category::Other,
        }
    }

    /// Constructs a command from its name.
    ///
    /// If the string does not refer to a built-in command, a value
    /// of `Command::Custom(name)` is returned.
    pub fn from_str(name: &str) -> (c: Command)
        ensures
            c@ == command_from_name(name@),
    {
        Command::from_string(name)
    }

    /// Constructs a command from its name.
    ///
    /// If the string does not refer to a built-in command, a value
    /// of `Command::Custom(name)` is returned.
    pub fn from_string(name: &str) -> (c: Command)
        ensures
            c@ == command_from_name(name@),
    {
        let v = chars_of(name);
        proof {
            assert(v@.subrange(0, v@.len() as int) =~= v@);
        }
        match Command::opt_from_chars(&v) {
            Some(c) => c,
            None => Command::Custom(string_of(v.as_slice(), 0, v.len())),
        }
    }

    /// The built-in command whose name is `v`, if any.
    fn opt_from_chars(v: &Vec<char>) -> (r: Option<Command>)
        ensures
            match r {
                Some(c) => builtin_named(v@) is Some && c@ == CommandView::Builtin(
                    builtin_named(v@)->0,
                ),
                None => builtin_named(v@) is None,
            },
    {
        let n = v.len();
        proof {
            assert(v@.subrange(0, n as int) =~= v@);
        }
        if slice_eq(v.as_slice(), 0, n, "abort") {
            return Some(Command::Abort);
        }
        if slice_eq(v.as_slice(), 0, n, "accept-line") {
            return Some(Command::AcceptLine);
        }
        if slice_eq(v.as_slice(), 0, n, "complete") {
            return Some(Command::Complete);
        }
        if slice_eq(v.as_slice(), 0, n, "insert-completions") {
            return Some(Command::InsertCompletions);
        }
        if slice_eq(v.as_slice(), 0, n, "possible-completions") {
            return Some(Command::PossibleCompletions);
        }
        if slice_eq(v.as_slice(), 0, n, "menu-complete") {
            return Some(Command::MenuComplete);
        }
        if slice_eq(v.as_slice(), 0, n, "menu-complete-backward") {
            return Some(Command::MenuCompleteBackward);
        }
        if slice_eq(v.as_slice(), 0, n, "digit-argument") {
            return Some(Command::DigitArgument);
        }
        if slice_eq(v.as_slice(), 0, n, "self-insert") {
            return Some(Command::SelfInsert);
        }
        if slice_eq(v.as_slice(), 0, n, "tab-insert") {
            return Some(Command::TabInsert);
        }
        if slice_eq(v.as_slice(), 0, n, "overwrite-mode") {
            return Some(Command::OverwriteMode);
        }
        if slice_eq(v.as_slice(), 0, n, "insert-comment") {
            return Some(Command::InsertComment);
        }
        if slice_eq(v.as_slice(), 0, n, "backward-char") {
            return Some(Command::BackwardChar);
        }
        if slice_eq(v.as_slice(), 0, n, "forward-char") {
            return Some(Command::ForwardChar);
        }
        if slice_eq(v.as_slice(), 0, n, "character-search") {
            return Some(Command::CharacterSearch);
        }
        if slice_eq(v.as_slice(), 0, n, "character-search-backward") {
            return Some(Command::CharacterSearchBackward);
        }
        if slice_eq(v.as_slice(), 0, n, "backward-word") {
            return Some(Command::BackwardWord);
        }
        if slice_eq(v.as_slice(), 0, n, "forward-word") {
            return Some(Command::ForwardWord);
        }
        if slice_eq(v.as_slice(), 0, n, "backward-kill-line") {
            return Some(Command::BackwardKillLine);
        }
        if slice_eq(v.as_slice(), 0, n, "kill-line") {
            return Some(Command::KillLine);
        }
        if slice_eq(v.as_slice(), 0, n, "backward-kill-word") {
            return Some(Command::BackwardKillWord);
        }
        if slice_eq(v.as_slice(), 0, n, "kill-word") {
            return Some(Command::KillWord);
        }
        if slice_eq(v.as_slice(), 0, n, "unix-word-rubout") {
            return Some(Command::UnixWordRubout);
        }
        if slice_eq(v.as_slice(), 0, n, "clear-screen") {
            return Some(Command::ClearScreen);
        }
        if slice_eq(v.as_slice(), 0, n, "beginning-of-line") {
            return Some(Command::BeginningOfLine);
        }
        if slice_eq(v.as_slice(), 0, n, "end-of-line") {
            return Some(Command::EndOfLine);
        }
        if slice_eq(v.as_slice(), 0, n, "backward-delete-char") {
            return Some(Command::BackwardDeleteChar);
        }
        if slice_eq(v.as_slice(), 0, n, "delete-char") {
            return Some(Command::DeleteChar);
        }
        if slice_eq(v.as_slice(), 0, n, "transpose-chars") {
            return Some(Command::TransposeChars);
        }
        if slice_eq(v.as_slice(), 0, n, "transpose-words") {
            return Some(Command::TransposeWords);
        }
        if slice_eq(v.as_slice(), 0, n, "beginning-of-history") {
            return Some(Command::BeginningOfHistory);
        }
        if slice_eq(v.as_slice(), 0, n, "end-of-history") {
            return Some(Command::EndOfHistory);
        }
        if slice_eq(v.as_slice(), 0, n, "next-history") {
            return Some(Command::NextHistory);
        }
        if slice_eq(v.as_slice(), 0, n, "previous-history") {
            return Some(Command::PreviousHistory);
        }
        if slice_eq(v.as_slice(), 0, n, "forward-search-history") {
            return Some(Command::ForwardSearchHistory);
        }
        if slice_eq(v.as_slice(), 0, n, "reverse-search-history") {
            return Some(Command::ReverseSearchHistory);
        }
        if slice_eq(v.as_slice(), 0, n, "history-search-forward") {
            return Some(Command::HistorySearchForward);
        }
        if slice_eq(v.as_slice(), 0, n, "history-search-backward") {
            return Some(Command::HistorySearchBackward);
        }
        if slice_eq(v.as_slice(), 0, n, "quoted-insert") {
            return Some(Command::QuotedInsert);
        }
        if slice_eq(v.as_slice(), 0, n, "yank") {
            return Some(Command::Yank);
        }
        if slice_eq(v.as_slice(), 0, n, "yank-pop") {
            return Some(Command::YankPop);
        }
        proof {
            assert(v@.subrange(0, n as int) =~= v@);
        }
        None
    }
}


impl Command {
    /// A copy of this command.
    pub fn copy(&self) -> (c: Command)
        ensures
            c@ == self@,
    {
        match self {
            Command::Abort => Command::Abort,
            Command::AcceptLine => Command::AcceptLine,
            Command::Complete => Command::Complete,
            Command::InsertCompletions => Command::InsertCompletions,
            Command::PossibleCompletions => Command::PossibleCompletions,
            Command::MenuComplete => Command::MenuComplete,
            Command::MenuCompleteBackward => Command::MenuCompleteBackward,
            Command::DigitArgument => Command::DigitArgument,
            Command::SelfInsert => Command::SelfInsert,
            Command::TabInsert => Command::TabInsert,
            Command::OverwriteMode => Command::OverwriteMode,
            Command::InsertComment => Command::InsertComment,
            Command::BackwardChar => Command::BackwardChar,
            Command::ForwardChar => Command::ForwardChar,
            Command::CharacterSearch => Command::CharacterSearch,
            Command::CharacterSearchBackward => Command::CharacterSearchBackward,
            Command::BackwardWord => Command::BackwardWord,
            Command::ForwardWord => Command::ForwardWord,
            Command::BackwardKillLine => Command::BackwardKillLine,
            Command::KillLine => Command::KillLine,
            Command::BackwardKillWord => Command::BackwardKillWord,
            Command::KillWord => Command::KillWord,
            Command::UnixWordRubout => Command::UnixWordRubout,
            Command::ClearScreen => Command::ClearScreen,
            Command::BeginningOfLine => Command::BeginningOfLine,
            Command::EndOfLine => Command::EndOfLine,
            Command::BackwardDeleteChar => Command::BackwardDeleteChar,
            Command::DeleteChar => Command::DeleteChar,
            Command::TransposeChars => Command::TransposeChars,
            Command::TransposeWords => Command::TransposeWords,
            Command::BeginningOfHistory => Command::BeginningOfHistory,
            Command::EndOfHistory => Command::EndOfHistory,
            Command::NextHistory => Command::NextHistory,
            Command::PreviousHistory => Command::PreviousHistory,
            Command::ForwardSearchHistory => Command::ForwardSearchHistory,
            Command::ReverseSearchHistory => Command::ReverseSearchHistory,
            Command::HistorySearchForward => Command::HistorySearchForward,
            Command::HistorySearchBackward => Command::HistorySearchBackward,
            Command::QuotedInsert => Command::QuotedInsert,
            Command::Yank => Command::Yank,
            Command::YankPop => Command::YankPop,
            Command::Custom(s) => Command::Custom(s.clone()),
            Command::Macro(s) => Command::Macro(s.clone()),
        }
    }
}


/// The names of the built-in commands are distinct, so each leads back to
/// its command: `Command::from_str` of the name that the command table
/// gives a command is that command.
pub proof fn lemma_builtin_name_roundtrip(i: nat)
    requires
        i < num_builtins(),
    ensures
        builtin_named(builtin_name(i)) == Some(i),
        command_from_name(builtin_name(i)) == CommandView::Builtin(i),
{
    reveal_strlit("abort");
    reveal_strlit("accept-line");
    reveal_strlit("complete");
    reveal_strlit("insert-completions");
    reveal_strlit("possible-completions");
    reveal_strlit("menu-complete");
    reveal_strlit("menu-complete-backward");
    reveal_strlit("digit-argument");
    reveal_strlit("self-insert");
    reveal_strlit("tab-insert");
    reveal_strlit("overwrite-mode");
    reveal_strlit("insert-comment");
    reveal_strlit("backward-char");
    reveal_strlit("forward-char");
    reveal_strlit("character-search");
    reveal_strlit("character-search-backward");
    reveal_strlit("backward-word");
    reveal_strlit("forward-word");
    reveal_strlit("backward-kill-line");
    reveal_strlit("kill-line");
    reveal_strlit("backward-kill-word");
    reveal_strlit("kill-word");
    reveal_strlit("unix-word-rubout");
    reveal_strlit("clear-screen");
    reveal_strlit("beginning-of-line");
    reveal_strlit("end-of-line");
    reveal_strlit("backward-delete-char");
    reveal_strlit("delete-char");
    reveal_strlit("transpose-chars");
    reveal_strlit("transpose-words");
    reveal_strlit("beginning-of-history");
    reveal_strlit("end-of-history");
    reveal_strlit("next-history");
    reveal_strlit("previous-history");
    reveal_strlit("forward-search-history");
    reveal_strlit("reverse-search-history");
    reveal_strlit("history-search-forward");
    reveal_strlit("history-search-backward");
    reveal_strlit("quoted-insert");
    reveal_strlit("yank");
    reveal_strlit("yank-pop");
    if i == 0 {
    } else if i == 1 {
        assert(builtin_name(0).len() != builtin_name(1).len());
    } else if i == 2 {
        assert(builtin_name(0).len() != builtin_name(2).len());
        assert(builtin_name(1).len() != builtin_name(2).len());
    } else if i == 3 {
        assert(builtin_name(0).len() != builtin_name(3).len());
        assert(builtin_name(1).len() != builtin_name(3).len());
        assert(builtin_name(2).len() != builtin_name(3).len());
    } else if i == 4 {
        assert(builtin_name(0).len() != builtin_name(4).len());
        assert(builtin_name(1).len() != builtin_name(4).len());
        assert(builtin_name(2).len() != builtin_name(4).len());
        assert(builtin_name(3).len() != builtin_name(4).len());
    } else if i == 5 {
        assert(builtin_name(0).len() != builtin_name(5).len());
        assert(builtin_name(1).len() != builtin_name(5).len());
        assert(builtin_name(2).len() != builtin_name(5).len());
        assert(builtin_name(3).len() != builtin_name(5).len());
        assert(builtin_name(4).len() != builtin_name(5).len());
    } else if i == 6 {
        assert(builtin_name(0).len() != builtin_name(6).len());
        assert(builtin_name(1).len() != builtin_name(6).len());
        assert(builtin_name(2).len() != builtin_name(6).len());
        assert(builtin_name(3).len() != builtin_name(6).len());
        assert(builtin_name(4).len() != builtin_name(6).len());
        assert(builtin_name(5).len() != builtin_name(6).len());
    } else if i == 7 {
        assert(builtin_name(0).len() != builtin_name(7).len());
        assert(builtin_name(1).len() != builtin_name(7).len());
        assert(builtin_name(2).len() != builtin_name(7).len());
        assert(builtin_name(3).len() != builtin_name(7).len());
        assert(builtin_name(4).len() != builtin_name(7).len());
        assert(builtin_name(5).len() != builtin_name(7).len());
        assert(builtin_name(6).len() != builtin_name(7).len());
    } else if i == 8 {
        assert(builtin_name(0).len() != builtin_name(8).len());
        assert(builtin_name(1)[0] != builtin_name(8)[0]);
        assert(builtin_name(2).len() != builtin_name(8).len());
        assert(builtin_name(3).len() != builtin_name(8).len());
        assert(builtin_name(4).len() != builtin_name(8).len());
        assert(builtin_name(5).len() != builtin_name(8).len());
        assert(builtin_name(6).len() != builtin_name(8).len());
        assert(builtin_name(7).len() != builtin_name(8).len());
    } else if i == 9 {
        assert(builtin_name(0).len() != builtin_name(9).len());
        assert(builtin_name(1).len() != builtin_name(9).len());
        assert(builtin_name(2).len() != builtin_name(9).len());
        assert(builtin_name(3).len() != builtin_name(9).len());
        assert(builtin_name(4).len() != builtin_name(9).len());
        assert(builtin_name(5).len() != builtin_name(9).len());
        assert(builtin_name(6).len() != builtin_name(9).len());
        assert(builtin_name(7).len() != builtin_name(9).len());
        assert(builtin_name(8).len() != builtin_name(9).len());
    } else if i == 10 {
        assert(builtin_name(0).len() != builtin_name(10).len());
        assert(builtin_name(1).len() != builtin_name(10).len());
        assert(builtin_name(2).len() != builtin_name(10).len());
        assert(builtin_name(3).len() != builtin_name(10).len());
        assert(builtin_name(4).len() != builtin_name(10).len());
        assert(builtin_name(5).len() != builtin_name(10).len());
        assert(builtin_name(6).len() != builtin_name(10).len());
        assert(builtin_name(7)[0] != builtin_name(10)[0]);
        assert(builtin_name(8).len() != builtin_name(10).len());
        assert(builtin_name(9).len() != builtin_name(10).len());
    } else if i == 11 {
        assert(builtin_name(0).len() != builtin_name(11).len());
        assert(builtin_name(1).len() != builtin_name(11).len());
        assert(builtin_name(2).len() != builtin_name(11).len());
        assert(builtin_name(3).len() != builtin_name(11).len());
        assert(builtin_name(4).len() != builtin_name(11).len());
        assert(builtin_name(5).len() != builtin_name(11).len());
        assert(builtin_name(6).len() != builtin_name(11).len());
        assert(builtin_name(7)[0] != builtin_name(11)[0]);
        assert(builtin_name(8).len() != builtin_name(11).len());
        assert(builtin_name(9).len() != builtin_name(11).len());
        assert(builtin_name(10)[0] != builtin_name(11)[0]);
    } else if i == 12 {
        assert(builtin_name(0).len() != builtin_name(12).len());
        assert(builtin_name(1).len() != builtin_name(12).len());
        assert(builtin_name(2).len() != builtin_name(12).len());
        assert(builtin_name(3).len() != builtin_name(12).len());
        assert(builtin_name(4).len() != builtin_name(12).len());
        assert(builtin_name(5)[0] != builtin_name(12)[0]);
        assert(builtin_name(6).len() != builtin_name(12).len());
        assert(builtin_name(7).len() != builtin_name(12).len());
        assert(builtin_name(8).len() != builtin_name(12).len());
        assert(builtin_name(9).len() != builtin_name(12).len());
        assert(builtin_name(10).len() != builtin_name(12).len());
        assert(builtin_name(11).len() != builtin_name(12).len());
    } else if i == 13 {
        assert(builtin_name(0).len() != builtin_name(13).len());
        assert(builtin_name(1).len() != builtin_name(13).len());
        assert(builtin_name(2).len() != builtin_name(13).len());
        assert(builtin_name(3).len() != builtin_name(13).len());
        assert(builtin_name(4).len() != builtin_name(13).len());
        assert(builtin_name(5).len() != builtin_name(13).len());
        assert(builtin_name(6).len() != builtin_name(13).len());
        assert(builtin_name(7).len() != builtin_name(13).len());
        assert(builtin_name(8).len() != builtin_name(13).len());
        assert(builtin_name(9).len() != builtin_name(13).len());
        assert(builtin_name(10).len() != builtin_name(13).len());
        assert(builtin_name(11).len() != builtin_name(13).len());
        assert(builtin_name(12).len() != builtin_name(13).len());
    } else if i == 14 {
        assert(builtin_name(0).len() != builtin_name(14).len());
        assert(builtin_name(1).len() != builtin_name(14).len());
        assert(builtin_name(2).len() != builtin_name(14).len());
        assert(builtin_name(3).len() != builtin_name(14).len());
        assert(builtin_name(4).len() != builtin_name(14).len());
        assert(builtin_name(5).len() != builtin_name(14).len());
        assert(builtin_name(6).len() != builtin_name(14).len());
        assert(builtin_name(7).len() != builtin_name(14).len());
        assert(builtin_name(8).len() != builtin_name(14).len());
        assert(builtin_name(9).len() != builtin_name(14).len());
        assert(builtin_name(10).len() != builtin_name(14).len());
        assert(builtin_name(11).len() != builtin_name(14).len());
        assert(builtin_name(12).len() != builtin_name(14).len());
        assert(builtin_name(13).len() != builtin_name(14).len());
    } else if i == 15 {
        assert(builtin_name(0).len() != builtin_name(15).len());
        assert(builtin_name(1).len() != builtin_name(15).len());
        assert(builtin_name(2).len() != builtin_name(15).len());
        assert(builtin_name(3).len() != builtin_name(15).len());
        assert(builtin_name(4).len() != builtin_name(15).len());
        assert(builtin_name(5).len() != builtin_name(15).len());
        assert(builtin_name(6).len() != builtin_name(15).len());
        assert(builtin_name(7).len() != builtin_name(15).len());
        assert(builtin_name(8).len() != builtin_name(15).len());
        assert(builtin_name(9).len() != builtin_name(15).len());
        assert(builtin_name(10).len() != builtin_name(15).len());
        assert(builtin_name(11).len() != builtin_name(15).len());
        assert(builtin_name(12).len() != builtin_name(15).len());
        assert(builtin_name(13).len() != builtin_name(15).len());
        assert(builtin_name(14).len() != builtin_name(15).len());
    } else if i == 16 {
        assert(builtin_name(0).len() != builtin_name(16).len());
        assert(builtin_name(1).len() != builtin_name(16).len());
        assert(builtin_name(2).len() != builtin_name(16).len());
        assert(builtin_name(3).len() != builtin_name(16).len());
        assert(builtin_name(4).len() != builtin_name(16).len());
        assert(builtin_name(5)[0] != builtin_name(16)[0]);
        assert(builtin_name(6).len() != builtin_name(16).len());
        assert(builtin_name(7).len() != builtin_name(16).len());
        assert(builtin_name(8).len() != builtin_name(16).len());
        assert(builtin_name(9).len() != builtin_name(16).len());
        assert(builtin_name(10).len() != builtin_name(16).len());
        assert(builtin_name(11).len() != builtin_name(16).len());
        assert(builtin_name(12)[9] != builtin_name(16)[9]);
        assert(builtin_name(13).len() != builtin_name(16).len());
        assert(builtin_name(14).len() != builtin_name(16).len());
        assert(builtin_name(15).len() != builtin_name(16).len());
    } else if i == 17 {
        assert(builtin_name(0).len() != builtin_name(17).len());
        assert(builtin_name(1).len() != builtin_name(17).len());
        assert(builtin_name(2).len() != builtin_name(17).len());
        assert(builtin_name(3).len() != builtin_name(17).len());
        assert(builtin_name(4).len() != builtin_name(17).len());
        assert(builtin_name(5).len() != builtin_name(17).len());
        assert(builtin_name(6).len() != builtin_name(17).len());
        assert(builtin_name(7).len() != builtin_name(17).len());
        assert(builtin_name(8).len() != builtin_name(17).len());
        assert(builtin_name(9).len() != builtin_name(17).len());
        assert(builtin_name(10).len() != builtin_name(17).len());
        assert(builtin_name(11).len() != builtin_name(17).len());
        assert(builtin_name(12).len() != builtin_name(17).len());
        assert(builtin_name(13)[8] != builtin_name(17)[8]);
        assert(builtin_name(14).len() != builtin_name(17).len());
        assert(builtin_name(15).len() != builtin_name(17).len());
        assert(builtin_name(16).len() != builtin_name(17).len());
    } else if i == 18 {
        assert(builtin_name(0).len() != builtin_name(18).len());
        assert(builtin_name(1).len() != builtin_name(18).len());
        assert(builtin_name(2).len() != builtin_name(18).len());
        assert(builtin_name(3)[0] != builtin_name(18)[0]);
        assert(builtin_name(4).len() != builtin_name(18).len());
        assert(builtin_name(5).len() != builtin_name(18).len());
        assert(builtin_name(6).len() != builtin_name(18).len());
        assert(builtin_name(7).len() != builtin_name(18).len());
        assert(builtin_name(8).len() != builtin_name(18).len());
        assert(builtin_name(9).len() != builtin_name(18).len());
        assert(builtin_name(10).len() != builtin_name(18).len());
        assert(builtin_name(11).len() != builtin_name(18).len());
        assert(builtin_name(12).len() != builtin_name(18).len());
        assert(builtin_name(13).len() != builtin_name(18).len());
        assert(builtin_name(14).len() != builtin_name(18).len());
        assert(builtin_name(15).len() != builtin_name(18).len());
        assert(builtin_name(16).len() != builtin_name(18).len());
        assert(builtin_name(17).len() != builtin_name(18).len());
    } else if i == 19 {
        assert(builtin_name(0).len() != builtin_name(19).len());
        assert(builtin_name(1).len() != builtin_name(19).len());
        assert(builtin_name(2).len() != builtin_name(19).len());
        assert(builtin_name(3).len() != builtin_name(19).len());
        assert(builtin_name(4).len() != builtin_name(19).len());
        assert(builtin_name(5).len() != builtin_name(19).len());
        assert(builtin_name(6).len() != builtin_name(19).len());
        assert(builtin_name(7).len() != builtin_name(19).len());
        assert(builtin_name(8).len() != builtin_name(19).len());
        assert(builtin_name(9).len() != builtin_name(19).len());
        assert(builtin_name(10).len() != builtin_name(19).len());
        assert(builtin_name(11).len() != builtin_name(19).len());
        assert(builtin_name(12).len() != builtin_name(19).len());
        assert(builtin_name(13).len() != builtin_name(19).len());
        assert(builtin_name(14).len() != builtin_name(19).len());
        assert(builtin_name(15).len() != builtin_name(19).len());
        assert(builtin_name(16).len() != builtin_name(19).len());
        assert(builtin_name(17).len() != builtin_name(19).len());
        assert(builtin_name(18).len() != builtin_name(19).len());
    } else if i == 20 {
        assert(builtin_name(0).len() != builtin_name(20).len());
        assert(builtin_name(1).len() != builtin_name(20).len());
        assert(builtin_name(2).len() != builtin_name(20).len());
        assert(builtin_name(3)[0] != builtin_name(20)[0]);
        assert(builtin_name(4).len() != builtin_name(20).len());
        assert(builtin_name(5).len() != builtin_name(20).len());
        assert(builtin_name(6).len() != builtin_name(20).len());
        assert(builtin_name(7).len() != builtin_name(20).len());
        assert(builtin_name(8).len() != builtin_name(20).len());
        assert(builtin_name(9).len() != builtin_name(20).len());
        assert(builtin_name(10).len() != builtin_name(20).len());
        assert(builtin_name(11).len() != builtin_name(20).len());
        assert(builtin_name(12).len() != builtin_name(20).len());
        assert(builtin_name(13).len() != builtin_name(20).len());
        assert(builtin_name(14).len() != builtin_name(20).len());
        assert(builtin_name(15).len() != builtin_name(20).len());
        assert(builtin_name(16).len() != builtin_name(20).len());
        assert(builtin_name(17).len() != builtin_name(20).len());
        assert(builtin_name(18)[14] != builtin_name(20)[14]);
        assert(builtin_name(19).len() != builtin_name(20).len());
    } else if i == 21 {
        assert(builtin_name(0).len() != builtin_name(21).len());
        assert(builtin_name(1).len() != builtin_name(21).len());
        assert(builtin_name(2).len() != builtin_name(21).len());
        assert(builtin_name(3).len() != builtin_name(21).len());
        assert(builtin_name(4).len() != builtin_name(21).len());
        assert(builtin_name(5).len() != builtin_name(21).len());
        assert(builtin_name(6).len() != builtin_name(21).len());
        assert(builtin_name(7).len() != builtin_name(21).len());
        assert(builtin_name(8).len() != builtin_name(21).len());
        assert(builtin_name(9).len() != builtin_name(21).len());
        assert(builtin_name(10).len() != builtin_name(21).len());
        assert(builtin_name(11).len() != builtin_name(21).len());
        assert(builtin_name(12).len() != builtin_name(21).len());
        assert(builtin_name(13).len() != builtin_name(21).len());
        assert(builtin_name(14).len() != builtin_name(21).len());
        assert(builtin_name(15).len() != builtin_name(21).len());
        assert(builtin_name(16).len() != builtin_name(21).len());
        assert(builtin_name(17).len() != builtin_name(21).len());
        assert(builtin_name(18).len() != builtin_name(21).len());
        assert(builtin_name(19)[5] != builtin_name(21)[5]);
        assert(builtin_name(20).len() != builtin_name(21).len());
    } else if i == 22 {
        assert(builtin_name(0).len() != builtin_name(22).len());
        assert(builtin_name(1).len() != builtin_name(22).len());
        assert(builtin_name(2).len() != builtin_name(22).len());
        assert(builtin_name(3).len() != builtin_name(22).len());
        assert(builtin_name(4).len() != builtin_name(22).len());
        assert(builtin_name(5).len() != builtin_name(22).len());
        assert(builtin_name(6).len() != builtin_name(22).len());
        assert(builtin_name(7).len() != builtin_name(22).len());
        assert(builtin_name(8).len() != builtin_name(22).len());
        assert(builtin_name(9).len() != builtin_name(22).len());
        assert(builtin_name(10).len() != builtin_name(22).len());
        assert(builtin_name(11).len() != builtin_name(22).len());
        assert(builtin_name(12).len() != builtin_name(22).len());
        assert(builtin_name(13).len() != builtin_name(22).len());
        assert(builtin_name(14)[0] != builtin_name(22)[0]);
        assert(builtin_name(15).len() != builtin_name(22).len());
        assert(builtin_name(16).len() != builtin_name(22).len());
        assert(builtin_name(17).len() != builtin_name(22).len());
        assert(builtin_name(18).len() != builtin_name(22).len());
        assert(builtin_name(19).len() != builtin_name(22).len());
        assert(builtin_name(20).len() != builtin_name(22).len());
        assert(builtin_name(21).len() != builtin_name(22).len());
    } else if i == 23 {
        assert(builtin_name(0).len() != builtin_name(23).len());
        assert(builtin_name(1).len() != builtin_name(23).len());
        assert(builtin_name(2).len() != builtin_name(23).len());
        assert(builtin_name(3).len() != builtin_name(23).len());
        assert(builtin_name(4).len() != builtin_name(23).len());
        assert(builtin_name(5).len() != builtin_name(23).len());
        assert(builtin_name(6).len() != builtin_name(23).len());
        assert(builtin_name(7).len() != builtin_name(23).len());
        assert(builtin_name(8).len() != builtin_name(23).len());
        assert(builtin_name(9).len() != builtin_name(23).len());
        assert(builtin_name(10).len() != builtin_name(23).len());
        assert(builtin_name(11).len() != builtin_name(23).len());
        assert(builtin_name(12).len() != builtin_name(23).len());
        assert(builtin_name(13)[0] != builtin_name(23)[0]);
        assert(builtin_name(14).len() != builtin_name(23).len());
        assert(builtin_name(15).len() != builtin_name(23).len());
        assert(builtin_name(16).len() != builtin_name(23).len());
        assert(builtin_name(17)[0] != builtin_name(23)[0]);
        assert(builtin_name(18).len() != builtin_name(23).len());
        assert(builtin_name(19).len() != builtin_name(23).len());
        assert(builtin_name(20).len() != builtin_name(23).len());
        assert(builtin_name(21).len() != builtin_name(23).len());
        assert(builtin_name(22).len() != builtin_name(23).len());
    } else if i == 24 {
        assert(builtin_name(0).len() != builtin_name(24).len());
        assert(builtin_name(1).len() != builtin_name(24).len());
        assert(builtin_name(2).len() != builtin_name(24).len());
        assert(builtin_name(3).len() != builtin_name(24).len());
        assert(builtin_name(4).len() != builtin_name(24).len());
        assert(builtin_name(5).len() != builtin_name(24).len());
        assert(builtin_name(6).len() != builtin_name(24).len());
        assert(builtin_name(7).len() != builtin_name(24).len());
        assert(builtin_name(8).len() != builtin_name(24).len());
        assert(builtin_name(9).len() != builtin_name(24).len());
        assert(builtin_name(10).len() != builtin_name(24).len());
        assert(builtin_name(11).len() != builtin_name(24).len());
        assert(builtin_name(12).len() != builtin_name(24).len());
        assert(builtin_name(13).len() != builtin_name(24).len());
        assert(builtin_name(14).len() != builtin_name(24).len());
        assert(builtin_name(15).len() != builtin_name(24).len());
        assert(builtin_name(16).len() != builtin_name(24).len());
        assert(builtin_name(17).len() != builtin_name(24).len());
        assert(builtin_name(18).len() != builtin_name(24).len());
        assert(builtin_name(19).len() != builtin_name(24).len());
        assert(builtin_name(20).len() != builtin_name(24).len());
        assert(builtin_name(21).len() != builtin_name(24).len());
        assert(builtin_name(22).len() != builtin_name(24).len());
        assert(builtin_name(23).len() != builtin_name(24).len());
    } else if i == 25 {
        assert(builtin_name(0).len() != builtin_name(25).len());
        assert(builtin_name(1)[0] != builtin_name(25)[0]);
        assert(builtin_name(2).len() != builtin_name(25).len());
        assert(builtin_name(3).len() != builtin_name(25).len());
        assert(builtin_name(4).len() != builtin_name(25).len());
        assert(builtin_name(5).len() != builtin_name(25).len());
        assert(builtin_name(6).len() != builtin_name(25).len());
        assert(builtin_name(7).len() != builtin_name(25).len());
        assert(builtin_name(8)[0] != builtin_name(25)[0]);
        assert(builtin_name(9).len() != builtin_name(25).len());
        assert(builtin_name(10).len() != builtin_name(25).len());
        assert(builtin_name(11).len() != builtin_name(25).len());
        assert(builtin_name(12).len() != builtin_name(25).len());
        assert(builtin_name(13).len() != builtin_name(25).len());
        assert(builtin_name(14).len() != builtin_name(25).len());
        assert(builtin_name(15).len() != builtin_name(25).len());
        assert(builtin_name(16).len() != builtin_name(25).len());
        assert(builtin_name(17).len() != builtin_name(25).len());
        assert(builtin_name(18).len() != builtin_name(25).len());
        assert(builtin_name(19).len() != builtin_name(25).len());
        assert(builtin_name(20).len() != builtin_name(25).len());
        assert(builtin_name(21).len() != builtin_name(25).len());
        assert(builtin_name(22).len() != builtin_name(25).len());
        assert(builtin_name(23).len() != builtin_name(25).len());
        assert(builtin_name(24).len() != builtin_name(25).len());
    } else if i == 26 {
        assert(builtin_name(0).len() != builtin_name(26).len());
        assert(builtin_name(1).len() != builtin_name(26).len());
        assert(builtin_name(2).len() != builtin_name(26).len());
        assert(builtin_name(3).len() != builtin_name(26).len());
        assert(builtin_name(4)[0] != builtin_name(26)[0]);
        assert(builtin_name(5).len() != builtin_name(26).len());
        assert(builtin_name(6).len() != builtin_name(26).len());
        assert(builtin_name(7).len() != builtin_name(26).len());
        assert(builtin_name(8).len() != builtin_name(26).len());
        assert(builtin_name(9).len() != builtin_name(26).len());
        assert(builtin_name(10).len() != builtin_name(26).len());
        assert(builtin_name(11).len() != builtin_name(26).len());
        assert(builtin_name(12).len() != builtin_name(26).len());
        assert(builtin_name(13).len() != builtin_name(26).len());
        assert(builtin_name(14).len() != builtin_name(26).len());
        assert(builtin_name(15).len() != builtin_name(26).len());
        assert(builtin_name(16).len() != builtin_name(26).len());
        assert(builtin_name(17).len() != builtin_name(26).len());
        assert(builtin_name(18).len() != builtin_name(26).len());
        assert(builtin_name(19).len() != builtin_name(26).len());
        assert(builtin_name(20).len() != builtin_name(26).len());
        assert(builtin_name(21).len() != builtin_name(26).len());
        assert(builtin_name(22).len() != builtin_name(26).len());
        assert(builtin_name(23).len() != builtin_name(26).len());
        assert(builtin_name(24).len() != builtin_name(26).len());
        assert(builtin_name(25).len() != builtin_name(26).len());
    } else if i == 27 {
        assert(builtin_name(0).len() != builtin_name(27).len());
        assert(builtin_name(1)[0] != builtin_name(27)[0]);
        assert(builtin_name(2).len() != builtin_name(27).len());
        assert(builtin_name(3).len() != builtin_name(27).len());
        assert(builtin_name(4).len() != builtin_name(27).len());
        assert(builtin_name(5).len() != builtin_name(27).len());
        assert(builtin_name(6).len() != builtin_name(27).len());
        assert(builtin_name(7).len() != builtin_name(27).len());
        assert(builtin_name(8)[0] != builtin_name(27)[0]);
        assert(builtin_name(9).len() != builtin_name(27).len());
        assert(builtin_name(10).len() != builtin_name(27).len());
        assert(builtin_name(11).len() != builtin_name(27).len());
        assert(builtin_name(12).len() != builtin_name(27).len());
        assert(builtin_name(13).len() != builtin_name(27).len());
        assert(builtin_name(14).len() != builtin_name(27).len());
        assert(builtin_name(15).len() != builtin_name(27).len());
        assert(builtin_name(16).len() != builtin_name(27).len());
        assert(builtin_name(17).len() != builtin_name(27).len());
        assert(builtin_name(18).len() != builtin_name(27).len());
        assert(builtin_name(19).len() != builtin_name(27).len());
        assert(builtin_name(20).len() != builtin_name(27).len());
        assert(builtin_name(21).len() != builtin_name(27).len());
        assert(builtin_name(22).len() != builtin_name(27).len());
        assert(builtin_name(23).len() != builtin_name(27).len());
        assert(builtin_name(24).len() != builtin_name(27).len());
        assert(builtin_name(25)[0] != builtin_name(27)[0]);
        assert(builtin_name(26).len() != builtin_name(27).len());
    } else if i == 28 {
        assert(builtin_name(0).len() != builtin_name(28).len());
        assert(builtin_name(1).len() != builtin_name(28).len());
        assert(builtin_name(2).len() != builtin_name(28).len());
        assert(builtin_name(3).len() != builtin_name(28).len());
        assert(builtin_name(4).len() != builtin_name(28).len());
        assert(builtin_name(5).len() != builtin_name(28).len());
        assert(builtin_name(6).len() != builtin_name(28).len());
        assert(builtin_name(7).len() != builtin_name(28).len());
        assert(builtin_name(8).len() != builtin_name(28).len());
        assert(builtin_name(9).len() != builtin_name(28).len());
        assert(builtin_name(10).len() != builtin_name(28).len());
        assert(builtin_name(11).len() != builtin_name(28).len());
        assert(builtin_name(12).len() != builtin_name(28).len());
        assert(builtin_name(13).len() != builtin_name(28).len());
        assert(builtin_name(14).len() != builtin_name(28).len());
        assert(builtin_name(15).len() != builtin_name(28).len());
        assert(builtin_name(16).len() != builtin_name(28).len());
        assert(builtin_name(17).len() != builtin_name(28).len());
        assert(builtin_name(18).len() != builtin_name(28).len());
        assert(builtin_name(19).len() != builtin_name(28).len());
        assert(builtin_name(20).len() != builtin_name(28).len());
        assert(builtin_name(21).len() != builtin_name(28).len());
        assert(builtin_name(22).len() != builtin_name(28).len());
        assert(builtin_name(23).len() != builtin_name(28).len());
        assert(builtin_name(24).len() != builtin_name(28).len());
        assert(builtin_name(25).len() != builtin_name(28).len());
        assert(builtin_name(26).len() != builtin_name(28).len());
        assert(builtin_name(27).len() != builtin_name(28).len());
    } else if i == 29 {
        assert(builtin_name(0).len() != builtin_name(29).len());
        assert(builtin_name(1).len() != builtin_name(29).len());
        assert(builtin_name(2).len() != builtin_name(29).len());
        assert(builtin_name(3).len() != builtin_name(29).len());
        assert(builtin_name(4).len() != builtin_name(29).len());
        assert(builtin_name(5).len() != builtin_name(29).len());
        assert(builtin_name(6).len() != builtin_name(29).len());
        assert(builtin_name(7).len() != builtin_name(29).len());
        assert(builtin_name(8).len() != builtin_name(29).len());
        assert(builtin_name(9).len() != builtin_name(29).len());
        assert(builtin_name(10).len() != builtin_name(29).len());
        assert(builtin_name(11).len() != builtin_name(29).len());
        assert(builtin_name(12).len() != builtin_name(29).len());
        assert(builtin_name(13).len() != builtin_name(29).len());
        assert(builtin_name(14).len() != builtin_name(29).len());
        assert(builtin_name(15).len() != builtin_name(29).len());
        assert(builtin_name(16).len() != builtin_name(29).len());
        assert(builtin_name(17).len() != builtin_name(29).len());
        assert(builtin_name(18).len() != builtin_name(29).len());
        assert(builtin_name(19).len() != builtin_name(29).len());
        assert(builtin_name(20).len() != builtin_name(29).len());
        assert(builtin_name(21).len() != builtin_name(29).len());
        assert(builtin_name(22).len() != builtin_name(29).len());
        assert(builtin_name(23).len() != builtin_name(29).len());
        assert(builtin_name(24).len() != builtin_name(29).len());
        assert(builtin_name(25).len() != builtin_name(29).len());
        assert(builtin_name(26).len() != builtin_name(29).len());
        assert(builtin_name(27).len() != builtin_name(29).len());
        assert(builtin_name(28)[10] != builtin_name(29)[10]);
    } else if i == 30 {
        assert(builtin_name(0).len() != builtin_name(30).len());
        assert(builtin_name(1).len() != builtin_name(30).len());
        assert(builtin_name(2).len() != builtin_name(30).len());
        assert(builtin_name(3).len() != builtin_name(30).len());
        assert(builtin_name(4)[0] != builtin_name(30)[0]);
        assert(builtin_name(5).len() != builtin_name(30).len());
        assert(builtin_name(6).len() != builtin_name(30).len());
        assert(builtin_name(7).len() != builtin_name(30).len());
        assert(builtin_name(8).len() != builtin_name(30).len());
        assert(builtin_name(9).len() != builtin_name(30).len());
        assert(builtin_name(10).len() != builtin_name(30).len());
        assert(builtin_name(11).len() != builtin_name(30).len());
        assert(builtin_name(12).len() != builtin_name(30).len());
        assert(builtin_name(13).len() != builtin_name(30).len());
        assert(builtin_name(14).len() != builtin_name(30).len());
        assert(builtin_name(15).len() != builtin_name(30).len());
        assert(builtin_name(16).len() != builtin_name(30).len());
        assert(builtin_name(17).len() != builtin_name(30).len());
        assert(builtin_name(18).len() != builtin_name(30).len());
        assert(builtin_name(19).len() != builtin_name(30).len());
        assert(builtin_name(20).len() != builtin_name(30).len());
        assert(builtin_name(21).len() != builtin_name(30).len());
        assert(builtin_name(22).len() != builtin_name(30).len());
        assert(builtin_name(23).len() != builtin_name(30).len());
        assert(builtin_name(24).len() != builtin_name(30).len());
        assert(builtin_name(25).len() != builtin_name(30).len());
        assert(builtin_name(26)[1] != builtin_name(30)[1]);
        assert(builtin_name(27).len() != builtin_name(30).len());
        assert(builtin_name(28).len() != builtin_name(30).len());
        assert(builtin_name(29).len() != builtin_name(30).len());
    } else if i == 31 {
        assert(builtin_name(0).len() != builtin_name(31).len());
        assert(builtin_name(1).len() != builtin_name(31).len());
        assert(builtin_name(2).len() != builtin_name(31).len());
        assert(builtin_name(3).len() != builtin_name(31).len());
        assert(builtin_name(4).len() != builtin_name(31).len());
        assert(builtin_name(5).len() != builtin_name(31).len());
        assert(builtin_name(6).len() != builtin_name(31).len());
        assert(builtin_name(7)[0] != builtin_name(31)[0]);
        assert(builtin_name(8).len() != builtin_name(31).len());
        assert(builtin_name(9).len() != builtin_name(31).len());
        assert(builtin_name(10)[0] != builtin_name(31)[0]);
        assert(builtin_name(11)[0] != builtin_name(31)[0]);
        assert(builtin_name(12).len() != builtin_name(31).len());
        assert(builtin_name(13).len() != builtin_name(31).len());
        assert(builtin_name(14).len() != builtin_name(31).len());
        assert(builtin_name(15).len() != builtin_name(31).len());
        assert(builtin_name(16).len() != builtin_name(31).len());
        assert(builtin_name(17).len() != builtin_name(31).len());
        assert(builtin_name(18).len() != builtin_name(31).len());
        assert(builtin_name(19).len() != builtin_name(31).len());
        assert(builtin_name(20).len() != builtin_name(31).len());
        assert(builtin_name(21).len() != builtin_name(31).len());
        assert(builtin_name(22).len() != builtin_name(31).len());
        assert(builtin_name(23).len() != builtin_name(31).len());
        assert(builtin_name(24).len() != builtin_name(31).len());
        assert(builtin_name(25).len() != builtin_name(31).len());
        assert(builtin_name(26).len() != builtin_name(31).len());
        assert(builtin_name(27).len() != builtin_name(31).len());
        assert(builtin_name(28).len() != builtin_name(31).len());
        assert(builtin_name(29).len() != builtin_name(31).len());
        assert(builtin_name(30).len() != builtin_name(31).len());
    } else if i == 32 {
        assert(builtin_name(0).len() != builtin_name(32).len());
        assert(builtin_name(1).len() != builtin_name(32).len());
        assert(builtin_name(2).len() != builtin_name(32).len());
        assert(builtin_name(3).len() != builtin_name(32).len());
        assert(builtin_name(4).len() != builtin_name(32).len());
        assert(builtin_name(5).len() != builtin_name(32).len());
        assert(builtin_name(6).len() != builtin_name(32).len());
        assert(builtin_name(7).len() != builtin_name(32).len());
        assert(builtin_name(8).len() != builtin_name(32).len());
        assert(builtin_name(9).len() != builtin_name(32).len());
        assert(builtin_name(10).len() != builtin_name(32).len());
        assert(builtin_name(11).len() != builtin_name(32).len());
        assert(builtin_name(12).len() != builtin_name(32).len());
        assert(builtin_name(13)[0] != builtin_name(32)[0]);
        assert(builtin_name(14).len() != builtin_name(32).len());
        assert(builtin_name(15).len() != builtin_name(32).len());
        assert(builtin_name(16).len() != builtin_name(32).len());
        assert(builtin_name(17)[0] != builtin_name(32)[0]);
        assert(builtin_name(18).len() != builtin_name(32).len());
        assert(builtin_name(19).len() != builtin_name(32).len());
        assert(builtin_name(20).len() != builtin_name(32).len());
        assert(builtin_name(21).len() != builtin_name(32).len());
        assert(builtin_name(22).len() != builtin_name(32).len());
        assert(builtin_name(23)[0] != builtin_name(32)[0]);
        assert(builtin_name(24).len() != builtin_name(32).len());
        assert(builtin_name(25).len() != builtin_name(32).len());
        assert(builtin_name(26).len() != builtin_name(32).len());
        assert(builtin_name(27).len() != builtin_name(32).len());
        assert(builtin_name(28).len() != builtin_name(32).len());
        assert(builtin_name(29).len() != builtin_name(32).len());
        assert(builtin_name(30).len() != builtin_name(32).len());
        assert(builtin_name(31).len() != builtin_name(32).len());
    } else if i == 33 {
        assert(builtin_name(0).len() != builtin_name(33).len());
        assert(builtin_name(1).len() != builtin_name(33).len());
        assert(builtin_name(2).len() != builtin_name(33).len());
        assert(builtin_name(3).len() != builtin_name(33).len());
        assert(builtin_name(4).len() != builtin_name(33).len());
        assert(builtin_name(5).len() != builtin_name(33).len());
        assert(builtin_name(6).len() != builtin_name(33).len());
        assert(builtin_name(7).len() != builtin_name(33).len());
        assert(builtin_name(8).len() != builtin_name(33).len());
        assert(builtin_name(9).len() != builtin_name(33).len());
        assert(builtin_name(10).len() != builtin_name(33).len());
        assert(builtin_name(11).len() != builtin_name(33).len());
        assert(builtin_name(12).len() != builtin_name(33).len());
        assert(builtin_name(13).len() != builtin_name(33).len());
        assert(builtin_name(14)[0] != builtin_name(33)[0]);
        assert(builtin_name(15).len() != builtin_name(33).len());
        assert(builtin_name(16).len() != builtin_name(33).len());
        assert(builtin_name(17).len() != builtin_name(33).len());
        assert(builtin_name(18).len() != builtin_name(33).len());
        assert(builtin_name(19).len() != builtin_name(33).len());
        assert(builtin_name(20).len() != builtin_name(33).len());
        assert(builtin_name(21).len() != builtin_name(33).len());
        assert(builtin_name(22)[0] != builtin_name(33)[0]);
        assert(builtin_name(23).len() != builtin_name(33).len());
        assert(builtin_name(24).len() != builtin_name(33).len());
        assert(builtin_name(25).len() != builtin_name(33).len());
        assert(builtin_name(26).len() != builtin_name(33).len());
        assert(builtin_name(27).len() != builtin_name(33).len());
        assert(builtin_name(28).len() != builtin_name(33).len());
        assert(builtin_name(29).len() != builtin_name(33).len());
        assert(builtin_name(30).len() != builtin_name(33).len());
        assert(builtin_name(31).len() != builtin_name(33).len());
        assert(builtin_name(32).len() != builtin_name(33).len());
    } else if i == 34 {
        assert(builtin_name(0).len() != builtin_name(34).len());
        assert(builtin_name(1).len() != builtin_name(34).len());
        assert(builtin_name(2).len() != builtin_name(34).len());
        assert(builtin_name(3).len() != builtin_name(34).len());
        assert(builtin_name(4).len() != builtin_name(34).len());
        assert(builtin_name(5).len() != builtin_name(34).len());
        assert(builtin_name(6)[0] != builtin_name(34)[0]);
        assert(builtin_name(7).len() != builtin_name(34).len());
        assert(builtin_name(8).len() != builtin_name(34).len());
        assert(builtin_name(9).len() != builtin_name(34).len());
        assert(builtin_name(10).len() != builtin_name(34).len());
        assert(builtin_name(11).len() != builtin_name(34).len());
        assert(builtin_name(12).len() != builtin_name(34).len());
        assert(builtin_name(13).len() != builtin_name(34).len());
        assert(builtin_name(14).len() != builtin_name(34).len());
        assert(builtin_name(15).len() != builtin_name(34).len());
        assert(builtin_name(16).len() != builtin_name(34).len());
        assert(builtin_name(17).len() != builtin_name(34).len());
        assert(builtin_name(18).len() != builtin_name(34).len());
        assert(builtin_name(19).len() != builtin_name(34).len());
        assert(builtin_name(20).len() != builtin_name(34).len());
        assert(builtin_name(21).len() != builtin_name(34).len());
        assert(builtin_name(22).len() != builtin_name(34).len());
        assert(builtin_name(23).len() != builtin_name(34).len());
        assert(builtin_name(24).len() != builtin_name(34).len());
        assert(builtin_name(25).len() != builtin_name(34).len());
        assert(builtin_name(26).len() != builtin_name(34).len());
        assert(builtin_name(27).len() != builtin_name(34).len());
        assert(builtin_name(28).len() != builtin_name(34).len());
        assert(builtin_name(29).len() != builtin_name(34).len());
        assert(builtin_name(30).len() != builtin_name(34).len());
        assert(builtin_name(31).len() != builtin_name(34).len());
        assert(builtin_name(32).len() != builtin_name(34).len());
        assert(builtin_name(33).len() != builtin_name(34).len());
    } else if i == 35 {
        assert(builtin_name(0).len() != builtin_name(35).len());
        assert(builtin_name(1).len() != builtin_name(35).len());
        assert(builtin_name(2).len() != builtin_name(35).len());
        assert(builtin_name(3).len() != builtin_name(35).len());
        assert(builtin_name(4).len() != builtin_name(35).len());
        assert(builtin_name(5).len() != builtin_name(35).len());
        assert(builtin_name(6)[0] != builtin_name(35)[0]);
        assert(builtin_name(7).len() != builtin_name(35).len());
        assert(builtin_name(8).len() != builtin_name(35).len());
        assert(builtin_name(9).len() != builtin_name(35).len());
        assert(builtin_name(10).len() != builtin_name(35).len());
        assert(builtin_name(11).len() != builtin_name(35).len());
        assert(builtin_name(12).len() != builtin_name(35).len());
        assert(builtin_name(13).len() != builtin_name(35).len());
        assert(builtin_name(14).len() != builtin_name(35).len());
        assert(builtin_name(15).len() != builtin_name(35).len());
        assert(builtin_name(16).len() != builtin_name(35).len());
        assert(builtin_name(17).len() != builtin_name(35).len());
        assert(builtin_name(18).len() != builtin_name(35).len());
        assert(builtin_name(19).len() != builtin_name(35).len());
        assert(builtin_name(20).len() != builtin_name(35).len());
        assert(builtin_name(21).len() != builtin_name(35).len());
        assert(builtin_name(22).len() != builtin_name(35).len());
        assert(builtin_name(23).len() != builtin_name(35).len());
        assert(builtin_name(24).len() != builtin_name(35).len());
        assert(builtin_name(25).len() != builtin_name(35).len());
        assert(builtin_name(26).len() != builtin_name(35).len());
        assert(builtin_name(27).len() != builtin_name(35).len());
        assert(builtin_name(28).len() != builtin_name(35).len());
        assert(builtin_name(29).len() != builtin_name(35).len());
        assert(builtin_name(30).len() != builtin_name(35).len());
        assert(builtin_name(31).len() != builtin_name(35).len());
        assert(builtin_name(32).len() != builtin_name(35).len());
        assert(builtin_name(33).len() != builtin_name(35).len());
        assert(builtin_name(34)[0] != builtin_name(35)[0]);
    } else if i == 36 {
        assert(builtin_name(0).len() != builtin_name(36).len());
        assert(builtin_name(1).len() != builtin_name(36).len());
        assert(builtin_name(2).len() != builtin_name(36).len());
        assert(builtin_name(3).len() != builtin_name(36).len());
        assert(builtin_name(4).len() != builtin_name(36).len());
        assert(builtin_name(5).len() != builtin_name(36).len());
        assert(builtin_name(6)[0] != builtin_name(36)[0]);
        assert(builtin_name(7).len() != builtin_name(36).len());
        assert(builtin_name(8).len() != builtin_name(36).len());
        assert(builtin_name(9).len() != builtin_name(36).len());
        assert(builtin_name(10).len() != builtin_name(36).len());
        assert(builtin_name(11).len() != builtin_name(36).len());
        assert(builtin_name(12).len() != builtin_name(36).len());
        assert(builtin_name(13).len() != builtin_name(36).len());
        assert(builtin_name(14).len() != builtin_name(36).len());
        assert(builtin_name(15).len() != builtin_name(36).len());
        assert(builtin_name(16).len() != builtin_name(36).len());
        assert(builtin_name(17).len() != builtin_name(36).len());
        assert(builtin_name(18).len() != builtin_name(36).len());
        assert(builtin_name(19).len() != builtin_name(36).len());
        assert(builtin_name(20).len() != builtin_name(36).len());
        assert(builtin_name(21).len() != builtin_name(36).len());
        assert(builtin_name(22).len() != builtin_name(36).len());
        assert(builtin_name(23).len() != builtin_name(36).len());
        assert(builtin_name(24).len() != builtin_name(36).len());
        assert(builtin_name(25).len() != builtin_name(36).len());
        assert(builtin_name(26).len() != builtin_name(36).len());
        assert(builtin_name(27).len() != builtin_name(36).len());
        assert(builtin_name(28).len() != builtin_name(36).len());
        assert(builtin_name(29).len() != builtin_name(36).len());
        assert(builtin_name(30).len() != builtin_name(36).len());
        assert(builtin_name(31).len() != builtin_name(36).len());
        assert(builtin_name(32).len() != builtin_name(36).len());
        assert(builtin_name(33).len() != builtin_name(36).len());
        assert(builtin_name(34)[0] != builtin_name(36)[0]);
        assert(builtin_name(35)[0] != builtin_name(36)[0]);
    } else if i == 37 {
        assert(builtin_name(0).len() != builtin_name(37).len());
        assert(builtin_name(1).len() != builtin_name(37).len());
        assert(builtin_name(2).len() != builtin_name(37).len());
        assert(builtin_name(3).len() != builtin_name(37).len());
        assert(builtin_name(4).len() != builtin_name(37).len());
        assert(builtin_name(5).len() != builtin_name(37).len());
        assert(builtin_name(6).len() != builtin_name(37).len());
        assert(builtin_name(7).len() != builtin_name(37).len());
        assert(builtin_name(8).len() != builtin_name(37).len());
        assert(builtin_name(9).len() != builtin_name(37).len());
        assert(builtin_name(10).len() != builtin_name(37).len());
        assert(builtin_name(11).len() != builtin_name(37).len());
        assert(builtin_name(12).len() != builtin_name(37).len());
        assert(builtin_name(13).len() != builtin_name(37).len());
        assert(builtin_name(14).len() != builtin_name(37).len());
        assert(builtin_name(15).len() != builtin_name(37).len());
        assert(builtin_name(16).len() != builtin_name(37).len());
        assert(builtin_name(17).len() != builtin_name(37).len());
        assert(builtin_name(18).len() != builtin_name(37).len());
        assert(builtin_name(19).len() != builtin_name(37).len());
        assert(builtin_name(20).len() != builtin_name(37).len());
        assert(builtin_name(21).len() != builtin_name(37).len());
        assert(builtin_name(22).len() != builtin_name(37).len());
        assert(builtin_name(23).len() != builtin_name(37).len());
        assert(builtin_name(24).len() != builtin_name(37).len());
        assert(builtin_name(25).len() != builtin_name(37).len());
        assert(builtin_name(26).len() != builtin_name(37).len());
        assert(builtin_name(27).len() != builtin_name(37).len());
        assert(builtin_name(28).len() != builtin_name(37).len());
        assert(builtin_name(29).len() != builtin_name(37).len());
        assert(builtin_name(30).len() != builtin_name(37).len());
        assert(builtin_name(31).len() != builtin_name(37).len());
        assert(builtin_name(32).len() != builtin_name(37).len());
        assert(builtin_name(33).len() != builtin_name(37).len());
        assert(builtin_name(34).len() != builtin_name(37).len());
        assert(builtin_name(35).len() != builtin_name(37).len());
        assert(builtin_name(36).len() != builtin_name(37).len());
    } else if i == 38 {
        assert(builtin_name(0).len() != builtin_name(38).len());
        assert(builtin_name(1).len() != builtin_name(38).len());
        assert(builtin_name(2).len() != builtin_name(38).len());
        assert(builtin_name(3).len() != builtin_name(38).len());
        assert(builtin_name(4).len() != builtin_name(38).len());
        assert(builtin_name(5)[0] != builtin_name(38)[0]);
        assert(builtin_name(6).len() != builtin_name(38).len());
        assert(builtin_name(7).len() != builtin_name(38).len());
        assert(builtin_name(8).len() != builtin_name(38).len());
        assert(builtin_name(9).len() != builtin_name(38).len());
        assert(builtin_name(10).len() != builtin_name(38).len());
        assert(builtin_name(11).len() != builtin_name(38).len());
        assert(builtin_name(12)[0] != builtin_name(38)[0]);
        assert(builtin_name(13).len() != builtin_name(38).len());
        assert(builtin_name(14).len() != builtin_name(38).len());
        assert(builtin_name(15).len() != builtin_name(38).len());
        assert(builtin_name(16)[0] != builtin_name(38)[0]);
        assert(builtin_name(17).len() != builtin_name(38).len());
        assert(builtin_name(18).len() != builtin_name(38).len());
        assert(builtin_name(19).len() != builtin_name(38).len());
        assert(builtin_name(20).len() != builtin_name(38).len());
        assert(builtin_name(21).len() != builtin_name(38).len());
        assert(builtin_name(22).len() != builtin_name(38).len());
        assert(builtin_name(23).len() != builtin_name(38).len());
        assert(builtin_name(24).len() != builtin_name(38).len());
        assert(builtin_name(25).len() != builtin_name(38).len());
        assert(builtin_name(26).len() != builtin_name(38).len());
        assert(builtin_name(27).len() != builtin_name(38).len());
        assert(builtin_name(28).len() != builtin_name(38).len());
        assert(builtin_name(29).len() != builtin_name(38).len());
        assert(builtin_name(30).len() != builtin_name(38).len());
        assert(builtin_name(31).len() != builtin_name(38).len());
        assert(builtin_name(32).len() != builtin_name(38).len());
        assert(builtin_name(33).len() != builtin_name(38).len());
        assert(builtin_name(34).len() != builtin_name(38).len());
        assert(builtin_name(35).len() != builtin_name(38).len());
        assert(builtin_name(36).len() != builtin_name(38).len());
        assert(builtin_name(37).len() != builtin_name(38).len());
    } else if i == 39 {
        assert(builtin_name(0).len() != builtin_name(39).len());
        assert(builtin_name(1).len() != builtin_name(39).len());
        assert(builtin_name(2).len() != builtin_name(39).len());
        assert(builtin_name(3).len() != builtin_name(39).len());
        assert(builtin_name(4).len() != builtin_name(39).len());
        assert(builtin_name(5).len() != builtin_name(39).len());
        assert(builtin_name(6).len() != builtin_name(39).len());
        assert(builtin_name(7).len() != builtin_name(39).len());
        assert(builtin_name(8).len() != builtin_name(39).len());
        assert(builtin_name(9).len() != builtin_name(39).len());
        assert(builtin_name(10).len() != builtin_name(39).len());
        assert(builtin_name(11).len() != builtin_name(39).len());
        assert(builtin_name(12).len() != builtin_name(39).len());
        assert(builtin_name(13).len() != builtin_name(39).len());
        assert(builtin_name(14).len() != builtin_name(39).len());
        assert(builtin_name(15).len() != builtin_name(39).len());
        assert(builtin_name(16).len() != builtin_name(39).len());
        assert(builtin_name(17).len() != builtin_name(39).len());
        assert(builtin_name(18).len() != builtin_name(39).len());
        assert(builtin_name(19).len() != builtin_name(39).len());
        assert(builtin_name(20).len() != builtin_name(39).len());
        assert(builtin_name(21).len() != builtin_name(39).len());
        assert(builtin_name(22).len() != builtin_name(39).len());
        assert(builtin_name(23).len() != builtin_name(39).len());
        assert(builtin_name(24).len() != builtin_name(39).len());
        assert(builtin_name(25).len() != builtin_name(39).len());
        assert(builtin_name(26).len() != builtin_name(39).len());
        assert(builtin_name(27).len() != builtin_name(39).len());
        assert(builtin_name(28).len() != builtin_name(39).len());
        assert(builtin_name(29).len() != builtin_name(39).len());
        assert(builtin_name(30).len() != builtin_name(39).len());
        assert(builtin_name(31).len() != builtin_name(39).len());
        assert(builtin_name(32).len() != builtin_name(39).len());
        assert(builtin_name(33).len() != builtin_name(39).len());
        assert(builtin_name(34).len() != builtin_name(39).len());
        assert(builtin_name(35).len() != builtin_name(39).len());
        assert(builtin_name(36).len() != builtin_name(39).len());
        assert(builtin_name(37).len() != builtin_name(39).len());
        assert(builtin_name(38).len() != builtin_name(39).len());
    } else if i == 40 {
        assert(builtin_name(0).len() != builtin_name(40).len());
        assert(builtin_name(1).len() != builtin_name(40).len());
        assert(builtin_name(2)[0] != builtin_name(40)[0]);
        assert(builtin_name(3).len() != builtin_name(40).len());
        assert(builtin_name(4).len() != builtin_name(40).len());
        assert(builtin_name(5).len() != builtin_name(40).len());
        assert(builtin_name(6).len() != builtin_name(40).len());
        assert(builtin_name(7).len() != builtin_name(40).len());
        assert(builtin_name(8).len() != builtin_name(40).len());
        assert(builtin_name(9).len() != builtin_name(40).len());
        assert(builtin_name(10).len() != builtin_name(40).len());
        assert(builtin_name(11).len() != builtin_name(40).len());
        assert(builtin_name(12).len() != builtin_name(40).len());
        assert(builtin_name(13).len() != builtin_name(40).len());
        assert(builtin_name(14).len() != builtin_name(40).len());
        assert(builtin_name(15).len() != builtin_name(40).len());
        assert(builtin_name(16).len() != builtin_name(40).len());
        assert(builtin_name(17).len() != builtin_name(40).len());
        assert(builtin_name(18).len() != builtin_name(40).len());
        assert(builtin_name(19).len() != builtin_name(40).len());
        assert(builtin_name(20).len() != builtin_name(40).len());
        assert(builtin_name(21).len() != builtin_name(40).len());
        assert(builtin_name(22).len() != builtin_name(40).len());
        assert(builtin_name(23).len() != builtin_name(40).len());
        assert(builtin_name(24).len() != builtin_name(40).len());
        assert(builtin_name(25).len() != builtin_name(40).len());
        assert(builtin_name(26).len() != builtin_name(40).len());
        assert(builtin_name(27).len() != builtin_name(40).len());
        assert(builtin_name(28).len() != builtin_name(40).len());
        assert(builtin_name(29).len() != builtin_name(40).len());
        assert(builtin_name(30).len() != builtin_name(40).len());
        assert(builtin_name(31).len() != builtin_name(40).len());
        assert(builtin_name(32).len() != builtin_name(40).len());
        assert(builtin_name(33).len() != builtin_name(40).len());
        assert(builtin_name(34).len() != builtin_name(40).len());
        assert(builtin_name(35).len() != builtin_name(40).len());
        assert(builtin_name(36).len() != builtin_name(40).len());
        assert(builtin_name(37).len() != builtin_name(40).len());
        assert(builtin_name(38).len() != builtin_name(40).len());
        assert(builtin_name(39).len() != builtin_name(40).len());
    }
}

} // verus!
