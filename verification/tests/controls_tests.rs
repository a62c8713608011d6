use ptui::controls::{
    cycle_converter, handle_config_reload, handle_key_event, scroll_text_down, scroll_text_up,
    Action, HelpEffect, Key, KeyPress, Reaction, Situation,
};
use ptui::preview::save_ascii_target;

const BROWSING: Situation = Situation {
    delete_dialog_open: false,
    slideshow_active: false,
    text_file_selected: false,
};

const SLIDESHOW: Situation = Situation {
    delete_dialog_open: false,
    slideshow_active: true,
    text_file_selected: false,
};

const TEXT_FILE: Situation = Situation {
    delete_dialog_open: false,
    slideshow_active: false,
    text_file_selected: true,
};

const DIALOG: Situation = Situation {
    delete_dialog_open: true,
    slideshow_active: true,
    text_file_selected: true,
};

fn press(key: Key) -> Reaction {
    handle_key_event(KeyPress { key, control: false }, BROWSING)
}

fn press_in(key: Key, situation: Situation) -> Reaction {
    handle_key_event(KeyPress { key, control: false }, situation)
}

fn control(c: char) -> Reaction {
    handle_key_event(KeyPress { key: Key::Char(c), control: true }, BROWSING)
}

fn hiding(action: Action, resets_text_scroll: bool) -> Reaction {
    Reaction { action, resets_text_scroll, help: HelpEffect::Hide }
}

fn plain(action: Action) -> Reaction {
    Reaction { action, resets_text_scroll: false, help: HelpEffect::Keep }
}

#[test]
fn test_keys_quit() {
    assert_eq!(press(Key::Char('q')), plain(Action::Quit));
    assert_eq!(press(Key::Esc), plain(Action::Quit));
    assert_eq!(press_in(Key::Esc, SLIDESHOW), plain(Action::Quit));
    assert_eq!(control('q'), plain(Action::Quit));
}

#[test]
fn test_keys_move_the_selection() {
    assert_eq!(press(Key::Down), hiding(Action::MoveDown, true));
    assert_eq!(press(Key::Char('j')), hiding(Action::MoveDown, true));
    assert_eq!(press(Key::Up), hiding(Action::MoveUp, true));
    assert_eq!(press(Key::Char('k')), hiding(Action::MoveUp, true));
    assert_eq!(press(Key::PageDown), hiding(Action::PageDown, true));
    assert_eq!(press(Key::PageUp), hiding(Action::PageUp, true));
    assert_eq!(press(Key::Home), hiding(Action::MoveToStart, true));
    assert_eq!(press(Key::End), hiding(Action::MoveToEnd, true));
    assert_eq!(press(Key::Char('f')), hiding(Action::JumpForward, true));
    assert_eq!(press(Key::Char('b')), hiding(Action::JumpBackward, true));
    // With the control key, f and b turn pages and keep the text scroll.
    assert_eq!(control('f'), hiding(Action::PageDown, false));
    assert_eq!(control('b'), hiding(Action::PageUp, false));
    // The arrows left and right move too, and keep the text scroll.
    assert_eq!(press(Key::Right), hiding(Action::MoveDown, false));
    assert_eq!(press(Key::Left), hiding(Action::MoveUp, false));
}

#[test]
fn test_keys_commands() {
    assert_eq!(press(Key::Char('d')), hiding(Action::SortByDate, false));
    assert_eq!(press(Key::Char('n')), hiding(Action::SortByName, false));
    assert_eq!(press(Key::Enter), hiding(Action::EnterDirectory, false));
    assert_eq!(press(Key::Backspace), hiding(Action::GoToParent, false));
    assert_eq!(press(Key::Char('r')), hiding(Action::RefreshPreview, false));
    assert_eq!(press(Key::Char('[')), hiding(Action::DecreasePreviewSize, false));
    assert_eq!(press(Key::Char(']')), hiding(Action::IncreasePreviewSize, false));
    assert_eq!(press(Key::Char('s')), hiding(Action::SaveAscii, false));
    assert_eq!(press(Key::Char('x')), hiding(Action::AskDelete, false));
    assert_eq!(press(Key::Char('o')), hiding(Action::OpenInFileManager, false));
    assert_eq!(press(Key::Tab), hiding(Action::CycleConverter, false));
    assert_eq!(
        press(Key::Char('?')),
        Reaction {
            action: Action::ToggleHelp,
            resets_text_scroll: false,
            help: HelpEffect::Toggle
        }
    );
}

#[test]
fn test_keys_text_scrolling_comes_before_the_slideshow() {
    assert_eq!(press(Key::Char(' ')), hiding(Action::EnterSlideshow, false));
    assert_eq!(press_in(Key::Char(' '), SLIDESHOW), hiding(Action::ExitSlideshow, false));
    assert_eq!(press_in(Key::Char(' '), TEXT_FILE), hiding(Action::ScrollTextDown, false));
    let both = Situation { slideshow_active: true, ..TEXT_FILE };
    assert_eq!(press_in(Key::Char(' '), both), hiding(Action::ScrollTextDown, false));
    assert_eq!(press_in(Key::Char('u'), TEXT_FILE), hiding(Action::ScrollTextUp, false));
    assert_eq!(press(Key::Char('u')), hiding(Action::Nothing, false));
}

#[test]
fn test_keys_in_a_slideshow() {
    assert_eq!(press_in(Key::Right, SLIDESHOW), plain(Action::AdvanceSlideshow));
    assert_eq!(press_in(Key::Left, SLIDESHOW), plain(Action::SlideshowBackward));
    // A key that is bound to nothing ends the slideshow.
    assert_eq!(press_in(Key::Other, SLIDESHOW), plain(Action::ExitSlideshow));
    assert_eq!(press_in(Key::Char('z'), SLIDESHOW), plain(Action::ExitSlideshow));
    assert_eq!(press(Key::Other), plain(Action::Nothing));
    assert_eq!(press(Key::Char('z')), plain(Action::Nothing));
    assert_eq!(press(Key::Char('Q')), plain(Action::Nothing));
    // Bound keys keep their meaning.
    assert_eq!(press_in(Key::Down, SLIDESHOW), hiding(Action::MoveDown, true));
}

#[test]
fn test_keys_in_the_delete_dialog() {
    for c in ['y', 'Y'] {
        assert_eq!(press_in(Key::Char(c), DIALOG), plain(Action::ConfirmDelete));
    }
    for c in ['n', 'N'] {
        assert_eq!(press_in(Key::Char(c), DIALOG), plain(Action::CancelDelete));
    }
    assert_eq!(press_in(Key::Esc, DIALOG), plain(Action::CancelDelete));
    for key in [Key::Char('q'), Key::Char(' '), Key::Down, Key::Enter, Key::Tab, Key::Other] {
        assert_eq!(press_in(key, DIALOG), plain(Action::Nothing));
    }
}

#[test]
fn test_scroll_text() {
    assert_eq!(scroll_text_down(0, 24), 12);
    assert_eq!(scroll_text_down(12, 25), 24);
    assert_eq!(scroll_text_down(5, 1), 6);
    assert_eq!(scroll_text_down(5, 0), 6);
    assert_eq!(scroll_text_down(usize::MAX - 3, 24), usize::MAX);
    assert_eq!(scroll_text_up(30, 24), 18);
    assert_eq!(scroll_text_up(12, 24), 0);
    assert_eq!(scroll_text_up(5, 24), 0);
    assert_eq!(scroll_text_up(5, 0), 4);
    assert_eq!(scroll_text_up(0, 0), 0);
}

#[test]
fn test_cycle_converter() {
    assert_eq!(cycle_converter("chafa"), "jp2a");
    assert_eq!(cycle_converter("jp2a"), "graphical");
    assert_eq!(cycle_converter("graphical"), "chafa");
    assert_eq!(cycle_converter("anything"), "chafa");
    assert_eq!(cycle_converter(""), "chafa");
}

#[test]
fn test_config_reload_message() {
    assert_eq!(handle_config_reload("en", "en"), (false, "Config reloaded".to_string()));
    assert_eq!(
        handle_config_reload("en", "fr"),
        (true, "Config reloaded | Locale changed to: fr".to_string())
    );
}

#[test]
fn test_save_ascii_target() {
    let save = |path: &str| save_ascii_target(path, true, "not an image");
    assert_eq!(save("/pics/cat.jpg"), Ok("/pics/cat.ascii".to_string()));
    assert_eq!(save("cat.jpg"), Ok("cat.ascii".to_string()));
    assert_eq!(save("/pics/archive.tar.gz"), Ok("/pics/archive.tar.ascii".to_string()));
    assert_eq!(save("/pics/noext"), Ok("/pics/noext.ascii".to_string()));
    assert_eq!(save("/pics/.hidden"), Ok("/pics/.hidden.ascii".to_string()));
    assert_eq!(save("/pics/cat."), Ok("/pics/cat.ascii".to_string()));
    assert_eq!(save("/pi.cs/cat"), Ok("/pi.cs/cat.ascii".to_string()));
    for path in ["", "/", "/pics/", ".", "..", "/pics/.."] {
        assert_eq!(save(path), Err("Could not determine output filename".to_string()), "{:?}", path);
    }
    assert_eq!(
        save_ascii_target("/docs/readme.txt", false, "Selected file is not an image"),
        Err("Selected file is not an image".to_string())
    );
}
