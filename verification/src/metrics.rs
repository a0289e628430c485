//! How much room a text takes on screen: its number of lines and its width
//! in terminal columns, both as the rendering library measures them.

use vstd::prelude::*;

verus! {

/// The number of line feeds in `text`.
pub open spec fn line_feeds(text: Seq<char>) -> nat
    decreases text.len(),
{
    if text.len() == 0 {
        0
    } else {
        line_feeds(text.drop_last()) + if text.last() == '\n' {
            1nat
        } else {
            0nat
        }
    }
}

/// The number of lines of `text`: every line feed ends a line, and what
/// follows the last line feed is a line of its own unless it is empty.
pub open spec fn line_count(text: Seq<char>) -> nat {
    if text.len() == 0 {
        0
    } else if text.last() == '\n' {
        line_feeds(text)
    } else {
        line_feeds(text) + 1
    }
}

/// The number of terminal columns that `text` takes when it is shown, as the
/// rendering library measures it.
pub uninterp spec fn display_width(text: Seq<char>) -> nat;

/// The number of lines that the rendering library breaks `s` into.
///
/// Trusted: wraps `tui::text::Text::height` on `Text::from(s)`, which holds
/// one entry for each item of `str::lines`: the text is cut at every line
/// feed, and a last line ending adds no empty line.
#[verifier::external_body]
pub(crate) fn text_height(s: &str) -> (h: usize)
    ensures
        h == line_count(s@),
{
    tui::text::Text::from(s).height()
}

/// The number of columns that `s` takes on screen.
///
/// Trusted: wraps `tui::text::Span::width` on `Span::raw(s)`, which is the
/// Unicode display width of the content. The contract only gives that
/// number its name: it is a function of the text alone.
#[verifier::external_body]
pub(crate) fn span_width(s: &str) -> (w: usize)
    ensures
        w == display_width(s@),
{
    tui::text::Span::raw(s).width()
}

/// `n` as a screen measure, which ends at `u16::MAX`.
pub open spec fn screen_measure(n: int) -> int {
    if n > u16::MAX {
        u16::MAX as int
    } else {
        n
    }
}

/// `n` as a screen measure, which ends at `u16::MAX`.
pub fn to_measure(n: usize) -> (m: u16)
    ensures
        m == screen_measure(n as int),
{
    if n > 65535 {
        65535
    } else {
        n as u16
    }
}

/// The number of lines of `s` as a screen measure.
pub fn measured_height(s: &str) -> (h: u16)
    ensures
        h == screen_measure(line_count(s@) as int),
{
    to_measure(text_height(s))
}

} // verus!
