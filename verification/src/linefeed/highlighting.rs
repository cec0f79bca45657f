//! Styles applied to ranges of the input line.
use vstd::prelude::*;

use std::ops::Range;

verus! {

/// A style to be applied to a text range.
#[derive(Debug, Clone, PartialEq, Eq)]
pub enum Style {
    /// A style using raw ANSI color codes
    AnsiColor(String),
    /// The default terminal style
    Default,
}

/// What a `Style` holds, with its color codes as characters.
pub enum StyleView {
    AnsiColor(Seq<char>),
    Default,
}

impl View for Style {
    type V = StyleView;

    open spec fn view(&self) -> StyleView {
        match self {
            Style::AnsiColor(s) => StyleView::AnsiColor(s@),
            Style::Default => StyleView::Default,
        }
    }
}

/// Provides style information for a line of text.
pub trait Highlighter {
    /// Takes the current line buffer and returns a list of styled ranges.
    fn highlight(&self, line: &str) -> Vec<(Range<usize>, Style)>;
}

} // verus!
