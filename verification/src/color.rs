//! Display colors for keyword highlighting, and the styling of a token.

use vstd::prelude::*;
use colored::Colorize;

verus! {

/// A terminal display color for a registered keyword.
#[derive(Clone, Copy, Debug, PartialEq, Eq, Structural)]
pub enum Color {
    Black,
    Red,
    Green,
    Yellow,
    Blue,
    Magenta,
    Cyan,
    White,
}

/// Whether `needle` occurs in `hay` as one contiguous run.
pub open spec fn seq_contains(hay: Seq<char>, needle: Seq<char>) -> bool {
    exists|i: int|
        0 <= i && i + needle.len() <= hay.len() && #[trigger] hay.subrange(i, i + needle.len())
            == needle
}

/// Relies on `colored::Colorize::color` and the `Display` of
/// `colored::ColoredString`: the styled text is either the input itself (when
/// colorization is off) or the input between a style sequence and a reset
/// sequence; in both cases a text free of the escape character comes out
/// verbatim as one contiguous run.
#[verifier::external_body]
pub(crate) fn paint(s: &str, c: Color) -> (r: String)
    ensures
        (forall|i: int| 0 <= i < s@.len() ==> s@[i] != '\u{1b}') ==> seq_contains(r@, s@),
{
    let cc = match c {
        Color::Black => colored::Color::Black,
        Color::Red => colored::Color::Red,
        Color::Green => colored::Color::Green,
        Color::Yellow => colored::Color::Yellow,
        Color::Blue => colored::Color::Blue,
        Color::Magenta => colored::Color::Magenta,
        Color::Cyan => colored::Color::Cyan,
        Color::White => colored::Color::White,
    };
    s.color(cc).to_string()
}

} // verus!
