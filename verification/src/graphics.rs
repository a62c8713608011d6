//! What the terminal can show: whether it takes pixel graphics, through
//! which protocol, and how many pixels a character cell has.
//!
//! Looking at the terminal is the caller's part.  It reports what it found
//! in a [`TerminalProbe`], and [`detect`] decides.
use vstd::prelude::*;

use crate::strings::{chars_of, contains_chars, find_chars};

verus! {

/// A protocol for pixel graphics, or none.  Sixel is known but never
/// chosen: nothing here encodes for it.
#[derive(Debug, Clone, Copy, PartialEq, Eq, Structural)]
pub enum GraphicsCapability {
    Kitty,
    Iterm2,
    Sixel,
    /// No protocol: previews are text.
    Unsupported,
}

/// The size of a character cell in pixels that is reckoned with where the
/// terminal does not tell: width, then height.
pub const DEFAULT_FONT_SIZE: (u16, u16) = (8, 16);

/// What was found out about the terminal.
#[derive(Debug)]
pub struct TerminalProbe {
    /// Whether standard input is an interactive terminal.
    pub is_tty: bool,
    /// The value of `TERM`, empty where it is not set.
    pub term: String,
    /// The value of `TERM_PROGRAM`, empty where it is not set.
    pub term_program: String,
    /// The size of a character cell in pixels as the terminal answered, or
    /// nothing where it was not asked or did not answer.
    pub font_size: Option<(u16, u16)>,
}

/// Whether a terminal with these names speaks the Kitty graphics protocol:
/// `TERM` holds `kitty`, or `TERM_PROGRAM` holds the name of a terminal
/// that is known to speak it (`kitty`, `ghostty`, `WezTerm`).
pub open spec fn speaks_kitty(term: Seq<char>, term_program: Seq<char>) -> bool {
    ||| contains_chars(term, "kitty"@)
    ||| contains_chars(term_program, "kitty"@)
    ||| contains_chars(term_program, "ghostty"@)
    ||| contains_chars(term_program, "WezTerm"@)
}

/// Whether `TERM_PROGRAM` names a terminal of the iTerm family.
pub open spec fn speaks_iterm(term_program: Seq<char>) -> bool {
    contains_chars(term_program, "iTerm"@)
}

/// The protocol to use with a terminal of these names; the first that
/// applies of Kitty, iTerm2, none.
pub open spec fn capability_of(term: Seq<char>, term_program: Seq<char>) -> GraphicsCapability {
    if speaks_kitty(term, term_program) {
        GraphicsCapability::Kitty
    } else if speaks_iterm(term_program) {
        GraphicsCapability::Iterm2
    } else {
        GraphicsCapability::Unsupported
    }
}

/// What [`detect`] answers.
///
/// Off a terminal nothing is shown as graphics and no cell size is known.
/// A terminal that does not tell its cell size gets no graphics either, and
/// the default cell size.  Otherwise the names decide.
pub open spec fn detection(probe: TerminalProbe) -> (GraphicsCapability, Option<(u16, u16)>) {
    if !probe.is_tty {
        (GraphicsCapability::Unsupported, None)
    } else {
        match probe.font_size {
            None => (GraphicsCapability::Unsupported, Some(DEFAULT_FONT_SIZE)),
            Some(size) => (capability_of(probe.term@, probe.term_program@), Some(size)),
        }
    }
}

/// The size of a character cell of a terminal window of `width` by
/// `height` pixels that shows `columns` by `rows` cells: the pixels
/// divided evenly, rounded down.  There is none where the terminal reports
/// a zero for any of the four.
pub open spec fn cell_size_of(width: u16, height: u16, columns: u16, rows: u16) -> Option<
    (u16, u16),
> {
    if width == 0 || height == 0 || columns == 0 || rows == 0 {
        None
    } else {
        Some((width / columns, height / rows))
    }
}

/// Computes the size of a character cell from the size of the terminal
/// window in pixels and in cells.
pub fn cell_size(width: u16, height: u16, columns: u16, rows: u16) -> (r: Option<(u16, u16)>)
    ensures
        r == cell_size_of(width, height, columns, rows),
{
    if width == 0 || height == 0 || columns == 0 || rows == 0 {
        None
    } else {
        Some((width / columns, height / rows))
    }
}

/// Whether the terminal is to be asked for its cell size at all: only an
/// interactive terminal is, since the question may never be answered
/// elsewhere.
pub fn should_query_terminal(is_tty: bool) -> (r: bool)
    ensures
        r == is_tty,
{
    is_tty
}

fn holds(hay: &Vec<char>, needle: &str) -> (r: bool)
    ensures
        r == contains_chars(hay@, needle@),
{
    let needle_chars = chars_of(needle);
    find_chars(hay, &needle_chars)
}

/// Decides which graphics protocol to use, if any, and which cell size to
/// reckon with.
pub fn detect(probe: &TerminalProbe) -> (r: (GraphicsCapability, Option<(u16, u16)>))
    ensures
        r == detection(*probe),
        r.0 != GraphicsCapability::Sixel,
{
    if !probe.is_tty {
        return (GraphicsCapability::Unsupported, None);
    }
    match probe.font_size {
        None => (GraphicsCapability::Unsupported, Some(DEFAULT_FONT_SIZE)),
        Some(size) => {
            let term = chars_of(probe.term.as_str());
            let program = chars_of(probe.term_program.as_str());
            let capability = if holds(&term, "kitty") || holds(&program, "kitty") || holds(
                &program,
                "ghostty",
            ) || holds(&program, "WezTerm") {
                GraphicsCapability::Kitty
            } else if holds(&program, "iTerm") {
                GraphicsCapability::Iterm2
            } else {
                GraphicsCapability::Unsupported
            };
            (capability, Some(size))
        },
    }
}

impl GraphicsCapability {
    /// Whether images can be sent as pixels.  So far that is the Kitty
    /// protocol alone; with any other answer, previews are text.
    pub open spec fn spec_supports_graphics(&self) -> bool {
        *self == GraphicsCapability::Kitty
    }

    #[verifier::when_used_as_spec(spec_supports_graphics)]
    pub fn supports_graphics(&self) -> (r: bool)
        ensures
            r == self.spec_supports_graphics(),
    {
        match self {
            GraphicsCapability::Kitty => true,
            _ => false,
        }
    }
}

} // verus!
