//! What the keys do.
//!
//! Reading the keyboard and carrying out what a key asks for are the
//! caller's part; which key asks for what, in which situation, is decided
//! here.
use vstd::prelude::*;
use vstd::string::StringExecFns;

use crate::strings::str_eq;

verus! {

/// A key of the keyboard.
#[derive(Debug, Clone, Copy, PartialEq, Eq, Structural)]
pub enum Key {
    Char(char),
    Esc,
    Enter,
    Backspace,
    Tab,
    Up,
    Down,
    Left,
    Right,
    PageUp,
    PageDown,
    Home,
    End,
    /// Any other key.
    Other,
}

/// A key, and whether the control key was held with it.
#[derive(Debug, Clone, Copy, PartialEq, Eq, Structural)]
pub struct KeyPress {
    pub key: Key,
    pub control: bool,
}

/// What the program is busy with when a key arrives.
#[derive(Debug, Clone, Copy, PartialEq, Eq, Structural)]
pub struct Situation {
    /// The question whether to delete a file is on screen.
    pub delete_dialog_open: bool,
    /// A slideshow is running.
    pub slideshow_active: bool,
    /// The selected entry is a text file.
    pub text_file_selected: bool,
}

/// What a key asks for.
#[derive(Debug, Clone, Copy, PartialEq, Eq, Structural)]
pub enum Action {
    Quit,
    MoveDown,
    MoveUp,
    PageDown,
    PageUp,
    JumpForward,
    JumpBackward,
    MoveToStart,
    MoveToEnd,
    ScrollTextUp,
    ScrollTextDown,
    SortByDate,
    SortByName,
    EnterDirectory,
    GoToParent,
    RefreshPreview,
    DecreasePreviewSize,
    IncreasePreviewSize,
    SaveAscii,
    AskDelete,
    ConfirmDelete,
    CancelDelete,
    OpenInFileManager,
    EnterSlideshow,
    ExitSlideshow,
    AdvanceSlideshow,
    SlideshowBackward,
    ToggleHelp,
    CycleConverter,
    Nothing,
}

/// What a key does to the help screen.
#[derive(Debug, Clone, Copy, PartialEq, Eq, Structural)]
pub enum HelpEffect {
    /// The help screen stays as it is.
    Keep,
    /// The help screen goes.
    Hide,
    /// The help screen that shows at the start goes; the one that the user
    /// asks for comes or goes.
    Toggle,
}

/// What happens on a key: what it asks for, whether the text preview
/// scrolls back to its top, and what becomes of the help screen.
#[derive(Debug, Clone, Copy, PartialEq, Eq, Structural)]
pub struct Reaction {
    pub action: Action,
    pub resets_text_scroll: bool,
    pub help: HelpEffect,
}

/// A reaction that leaves text scroll and help screen alone.
pub open spec fn plain(action: Action) -> Reaction {
    Reaction { action, resets_text_scroll: false, help: HelpEffect::Keep }
}

/// A reaction that hides the help screen.
pub open spec fn hiding(action: Action, resets_text_scroll: bool) -> Reaction {
    Reaction { action, resets_text_scroll, help: HelpEffect::Hide }
}

/// What happens on a key while the question whether to delete a file is on
/// screen: `y` deletes, `n` and escape do not, and no other key does
/// anything.
pub open spec fn dialog_reaction(key: Key) -> Reaction {
    match key {
        Key::Char(c) => if c == 'y' || c == 'Y' {
            plain(Action::ConfirmDelete)
        } else if c == 'n' || c == 'N' {
            plain(Action::CancelDelete)
        } else {
            plain(Action::Nothing)
        },
        Key::Esc => plain(Action::CancelDelete),
        _ => plain(Action::Nothing),
    }
}

/// What happens on a character key outside the delete dialog.
pub open spec fn char_reaction(c: char, control: bool, situation: Situation) -> Reaction {
    if c == 'q' {
        plain(Action::Quit)
    } else if c == 'j' {
        hiding(Action::MoveDown, true)
    } else if c == 'k' {
        hiding(Action::MoveUp, true)
    } else if c == 'f' {
        if control {
            hiding(Action::PageDown, false)
        } else {
            hiding(Action::JumpForward, true)
        }
    } else if c == 'b' {
        if control {
            hiding(Action::PageUp, false)
        } else {
            hiding(Action::JumpBackward, true)
        }
    } else if c == 'u' {
        hiding(
            if situation.text_file_selected {
                Action::ScrollTextUp
            } else {
                Action::Nothing
            },
            false,
        )
    } else if c == 'd' {
        hiding(Action::SortByDate, false)
    } else if c == 'n' {
        hiding(Action::SortByName, false)
    } else if c == 'r' {
        hiding(Action::RefreshPreview, false)
    } else if c == '[' {
        hiding(Action::DecreasePreviewSize, false)
    } else if c == ']' {
        hiding(Action::IncreasePreviewSize, false)
    } else if c == 's' {
        hiding(Action::SaveAscii, false)
    } else if c == 'x' {
        hiding(Action::AskDelete, false)
    } else if c == 'o' {
        hiding(Action::OpenInFileManager, false)
    } else if c == ' ' {
        hiding(
            if situation.text_file_selected {
                Action::ScrollTextDown
            } else if situation.slideshow_active {
                Action::ExitSlideshow
            } else {
                Action::EnterSlideshow
            },
            false,
        )
    } else if c == '?' {
        Reaction { action: Action::ToggleHelp, resets_text_scroll: false, help: HelpEffect::Toggle }
    } else {
        other_key_reaction(situation)
    }
}

/// What happens on a key that is bound to nothing: it ends a slideshow.
pub open spec fn other_key_reaction(situation: Situation) -> Reaction {
    plain(
        if situation.slideshow_active {
            Action::ExitSlideshow
        } else {
            Action::Nothing
        },
    )
}

/// What happens on a key.
///
/// While the delete dialog is open, it alone takes keys.  Otherwise the
/// arrow keys left and right step through a running slideshow, and move the
/// selection when none runs; the space bar scrolls a text file, and starts
/// or ends the slideshow for any other entry.
pub open spec fn reaction_to(press: KeyPress, situation: Situation) -> Reaction {
    if situation.delete_dialog_open {
        dialog_reaction(press.key)
    } else {
        match press.key {
            Key::Char(c) => char_reaction(c, press.control, situation),
            Key::Esc => plain(Action::Quit),
            Key::Down => hiding(Action::MoveDown, true),
            Key::Up => hiding(Action::MoveUp, true),
            Key::PageDown => hiding(Action::PageDown, true),
            Key::PageUp => hiding(Action::PageUp, true),
            Key::Enter => hiding(Action::EnterDirectory, false),
            Key::Backspace => hiding(Action::GoToParent, false),
            Key::Right => if situation.slideshow_active {
                plain(Action::AdvanceSlideshow)
            } else {
                hiding(Action::MoveDown, false)
            },
            Key::Left => if situation.slideshow_active {
                plain(Action::SlideshowBackward)
            } else {
                hiding(Action::MoveUp, false)
            },
            Key::Home => hiding(Action::MoveToStart, true),
            Key::End => hiding(Action::MoveToEnd, true),
            Key::Tab => hiding(Action::CycleConverter, false),
            Key::Other => other_key_reaction(situation),
        }
    }
}

fn react(action: Action, resets_text_scroll: bool, help: HelpEffect) -> (r: Reaction)
    ensures
        r == (Reaction { action, resets_text_scroll, help }),
{
    Reaction { action, resets_text_scroll, help }
}

fn on_other_key(situation: Situation) -> (r: Reaction)
    ensures
        r == other_key_reaction(situation),
{
    react(
        if situation.slideshow_active {
            Action::ExitSlideshow
        } else {
            Action::Nothing
        },
        false,
        HelpEffect::Keep,
    )
}

fn on_char(c: char, control: bool, situation: Situation) -> (r: Reaction)
    ensures
        r == char_reaction(c, control, situation),
{
    let hide = HelpEffect::Hide;
    if c == 'q' {
        react(Action::Quit, false, HelpEffect::Keep)
    } else if c == 'j' {
        react(Action::MoveDown, true, hide)
    } else if c == 'k' {
        react(Action::MoveUp, true, hide)
    } else if c == 'f' {
        if control {
            react(Action::PageDown, false, hide)
        } else {
            react(Action::JumpForward, true, hide)
        }
    } else if c == 'b' {
        if control {
            react(Action::PageUp, false, hide)
        } else {
            react(Action::JumpBackward, true, hide)
        }
    } else if c == 'u' {
        react(
            if situation.text_file_selected {
                Action::ScrollTextUp
            } else {
                Action::Nothing
            },
            false,
            hide,
        )
    } else if c == 'd' {
        react(Action::SortByDate, false, hide)
    } else if c == 'n' {
        react(Action::SortByName, false, hide)
    } else if c == 'r' {
        react(Action::RefreshPreview, false, hide)
    } else if c == '[' {
        react(Action::DecreasePreviewSize, false, hide)
    } else if c == ']' {
        react(Action::IncreasePreviewSize, false, hide)
    } else if c == 's' {
        react(Action::SaveAscii, false, hide)
    } else if c == 'x' {
        react(Action::AskDelete, false, hide)
    } else if c == 'o' {
        react(Action::OpenInFileManager, false, hide)
    } else if c == ' ' {
        react(
            if situation.text_file_selected {
                Action::ScrollTextDown
            } else if situation.slideshow_active {
                Action::ExitSlideshow
            } else {
                Action::EnterSlideshow
            },
            false,
            hide,
        )
    } else if c == '?' {
        react(Action::ToggleHelp, false, HelpEffect::Toggle)
    } else {
        on_other_key(situation)
    }
}

/// Decides what happens on a key.
pub fn handle_key_event(press: KeyPress, situation: Situation) -> (r: Reaction)
    ensures
        r == reaction_to(press, situation),
{
    let keep = HelpEffect::Keep;
    let hide = HelpEffect::Hide;
    if situation.delete_dialog_open {
        return match press.key {
            Key::Char(c) => if c == 'y' || c == 'Y' {
                react(Action::ConfirmDelete, false, keep)
            } else if c == 'n' || c == 'N' {
                react(Action::CancelDelete, false, keep)
            } else {
                react(Action::Nothing, false, keep)
            },
            Key::Esc => react(Action::CancelDelete, false, keep),
            _ => react(Action::Nothing, false, keep),
        };
    }
    match press.key {
        Key::Char(c) => on_char(c, press.control, situation),
        Key::Esc => react(Action::Quit, false, keep),
        Key::Down => react(Action::MoveDown, true, hide),
        Key::Up => react(Action::MoveUp, true, hide),
        Key::PageDown => react(Action::PageDown, true, hide),
        Key::PageUp => react(Action::PageUp, true, hide),
        Key::Enter => react(Action::EnterDirectory, false, hide),
        Key::Backspace => react(Action::GoToParent, false, hide),
        Key::Right => if situation.slideshow_active {
            react(Action::AdvanceSlideshow, false, keep)
        } else {
            react(Action::MoveDown, false, hide)
        },
        Key::Left => if situation.slideshow_active {
            react(Action::SlideshowBackward, false, keep)
        } else {
            react(Action::MoveUp, false, hide)
        },
        Key::Home => react(Action::MoveToStart, true, hide),
        Key::End => react(Action::MoveToEnd, true, hide),
        Key::Tab => react(Action::CycleConverter, false, hide),
        Key::Other => on_other_key(situation),
    }
}

/// How many lines a text preview of the given height scrolls by: half the
/// height, and at least one.
pub open spec fn scroll_amount(preview_height: u16) -> int {
    if preview_height / 2 >= 1 {
        (preview_height / 2) as int
    } else {
        1
    }
}

/// Scrolls a text preview up, to its top at most.
pub fn scroll_text_up(text_scroll_offset: usize, preview_height: u16) -> (r: usize)
    ensures
        r == if text_scroll_offset >= scroll_amount(preview_height) {
            text_scroll_offset - scroll_amount(preview_height)
        } else {
            0
        },
{
    let half: usize = (preview_height / 2) as usize;
    let amount: usize = if half >= 1 {
        half
    } else {
        1
    };
    if text_scroll_offset >= amount {
        text_scroll_offset - amount
    } else {
        0
    }
}

/// Scrolls a text preview down.
pub fn scroll_text_down(text_scroll_offset: usize, preview_height: u16) -> (r: usize)
    ensures
        r == if text_scroll_offset + scroll_amount(preview_height) <= usize::MAX {
            text_scroll_offset + scroll_amount(preview_height)
        } else {
            usize::MAX as int
        },
{
    let half: usize = (preview_height / 2) as usize;
    let amount: usize = if half >= 1 {
        half
    } else {
        1
    };
    if text_scroll_offset <= usize::MAX - amount {
        text_scroll_offset + amount
    } else {
        usize::MAX
    }
}

/// The converter that comes after the one named `current` when the user
/// asks for the next: chafa, jp2a, graphical, and chafa again.
pub open spec fn converter_after(current: Seq<char>) -> Seq<char> {
    if current == "chafa"@ {
        "jp2a"@
    } else if current == "jp2a"@ {
        "graphical"@
    } else {
        "chafa"@
    }
}

/// Names the converter that comes after the one named `current`.
pub fn cycle_converter(current: &str) -> (r: &'static str)
    ensures
        r@ == converter_after(current@),
{
    if str_eq(current, "chafa") {
        "jp2a"
    } else if str_eq(current, "jp2a") {
        "graphical"
    } else {
        "chafa"
    }
}

/// The message shown when a new configuration was loaded, which says so
/// when the locale changed with it.
pub open spec fn reload_message(current_locale: Seq<char>, new_locale: Seq<char>) -> Seq<char> {
    if current_locale != new_locale {
        "Config reloaded | Locale changed to: "@ + new_locale
    } else {
        "Config reloaded"@
    }
}

/// Judges a new configuration against the locale in use: returns whether
/// the locale changed, so that the messages must be loaded anew, and the
/// message to show.
pub fn handle_config_reload(current_locale: &str, new_locale: &str) -> (r: (bool, String))
    ensures
        r.0 == (current_locale@ != new_locale@),
        r.1@ == reload_message(current_locale@, new_locale@),
{
    if !str_eq(current_locale, new_locale) {
        let mut message = "Config reloaded | Locale changed to: ".to_owned();
        message.append(new_locale);
        (true, message)
    } else {
        (false, "Config reloaded".to_owned())
    }
}

} // verus!
