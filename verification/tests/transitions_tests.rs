use ptui::config::SlideshowTransitionConfig;
use ptui::preview::generate_ascii_preview;
use ptui::text::{line_count, text_to_string};
use ptui::transitions::{
    create_transition_frame, prerender_transition_frames, TransitionManager, FRAME_COUNT,
};
use ratatui::text::{Line, Span, Text};

fn config(enabled: bool, effect: &str, frame_duration_ms: u64) -> SlideshowTransitionConfig {
    SlideshowTransitionConfig {
        enabled,
        effect: effect.to_string(),
        frame_duration_ms,
    }
}

fn frame(effect: &str, target: &str, i: usize) -> String {
    let chars: Vec<char> = target.chars().collect();
    create_transition_frame(effect, &chars, i)
}

#[test]
fn test_transition_manager_creation() {
    let config = SlideshowTransitionConfig::default();
    let manager = TransitionManager::new(config.clone());
    assert_eq!(manager.config.enabled, config.enabled);
    assert_eq!(manager.total_transition_duration_ms, 1000);
    assert!(!manager.is_in_transition());
}

#[test]
fn test_is_enabled() {
    let config = SlideshowTransitionConfig {
        enabled: true,
        ..Default::default()
    };
    let manager = TransitionManager::new(config);
    assert!(manager.is_enabled());
}

#[test]
fn test_is_disabled() {
    let config = SlideshowTransitionConfig {
        enabled: false,
        ..Default::default()
    };
    let manager = TransitionManager::new(config);
    assert!(!manager.is_enabled());
}

#[test]
fn test_start_transition_when_disabled() {
    let mut manager = TransitionManager::new(config(false, "scattering", 50));

    let text1 = Text::from("Hello");
    let text2 = Text::from("World");

    let result = manager.start_transition(&text1, &text2);
    assert!(!result);
    assert!(!manager.is_in_transition());
}

#[test]
fn test_start_transition_when_enabled() {
    let mut manager = TransitionManager::new(config(true, "scattering", 50));

    let text1 = Text::from("Hello");
    let text2 = Text::from("World");

    let result = manager.start_transition(&text1, &text2);
    assert!(result);
    assert!(manager.is_in_transition());
    assert_eq!(manager.cached_frames.len(), FRAME_COUNT);
    assert_eq!(manager.cached_frames.len(), 20);
    assert_eq!(manager.current_frame_index, 0);
    assert_eq!(text_to_string(&manager.cached_frames[0]), "");
    assert_eq!(text_to_string(&manager.cached_frames[10]), "Wo");
    assert_eq!(text_to_string(&manager.cached_frames[19]), "World");
}

#[test]
fn test_text_to_string_simple() {
    let manager = TransitionManager::new(SlideshowTransitionConfig::default());

    let text = Text::from("Hello World");
    let result = manager.text_to_string(&text);
    assert_eq!(result, "Hello World");
}

#[test]
fn test_text_to_string_multiline() {
    let manager = TransitionManager::new(SlideshowTransitionConfig::default());

    let text = Text::from(vec![Line::from("Line 1"), Line::from("Line 2")]);
    let result = manager.text_to_string(&text);
    assert_eq!(result, "Line 1\nLine 2");
}

#[test]
fn test_text_to_string_joins_spans_and_keeps_empty_lines() {
    let text = Text::from(vec![
        Line::from(vec![Span::from("a"), Span::from("b"), Span::from("c")]),
        Line::from(""),
        Line::from(Vec::<Span>::new()),
        Line::from("d"),
    ]);
    assert_eq!(text_to_string(&text), "abc\n\n\nd");
    assert_eq!(line_count(&text), 4);
    assert_eq!(text_to_string(&Text::default()), "");
    assert_eq!(line_count(&Text::default()), 0);
}

#[test]
fn test_update_config() {
    let mut manager = TransitionManager::new(config(false, "scattering", 50));

    let new_config = config(true, "typewriter", 100);

    manager.update_config(new_config.clone());
    assert_eq!(manager.config.enabled, new_config.enabled);
    assert_eq!(manager.config.effect, new_config.effect);
    assert_eq!(manager.config.frame_duration_ms, new_config.frame_duration_ms);
    assert!(!manager.is_in_transition());
    assert_eq!(manager.total_transition_duration_ms, 2000);
    assert_eq!(manager.get_effect_name(), "typewriter");
}

#[test]
fn test_update_config_drops_a_running_transition() {
    let mut manager = TransitionManager::new(config(true, "scattering", 50));
    manager.start_transition(&Text::from("a"), &Text::from("b"));
    assert!(manager.is_in_transition());
    manager.update_config(config(true, "climbing", 10));
    assert!(!manager.is_in_transition());
    assert!(manager.cached_frames.is_empty());
    assert!(manager.get_current_transition_frame().is_none());
}

#[test]
fn test_reset_transition() {
    let mut manager = TransitionManager::new(config(true, "typewriter", 50));

    let text1 = Text::from("Hello");
    let text2 = Text::from("World");

    manager.start_transition(&text1, &text2);
    assert!(manager.is_in_transition());

    manager.reset_transition();
    assert!(!manager.is_in_transition());
    assert_eq!(manager.current_frame_index, 0);
}

#[test]
fn test_transition_frame_progression() {
    let mut manager = TransitionManager::new(config(true, "typewriter", 10));

    let text1 = Text::from("Hello");
    let text2 = Text::from("World");

    manager.start_transition(&text1, &text2);

    // Should have frames available initially
    let first_frame = manager.frame_at(0);
    assert!(first_frame.is_some());

    // After sufficient time, transition should complete
    let final_frame = manager.frame_at(200);
    assert!(final_frame.is_none());
    assert!(!manager.is_in_transition());
}

#[test]
fn test_frame_selection_by_elapsed_time() {
    let mut manager = TransitionManager::new(config(true, "scattering", 50));
    let target = Text::from("0123456789012345678");
    manager.start_transition(&Text::from(""), &target);
    assert_eq!(manager.total_transition_duration_ms, 1000);

    let mut last = 0;
    for elapsed in [0u64, 1, 52, 53, 100, 499, 500, 526, 527, 947, 948, 999] {
        let shown = manager.frame_at(elapsed).map(text_to_string);
        let index = manager.current_frame_index;
        assert_eq!(index as u64, elapsed * 19 / 1000, "{} ms", elapsed);
        assert!(index >= last, "{} ms", elapsed);
        assert_eq!(shown.unwrap().len(), index);
        last = index;
    }
    assert_eq!(last, 18);
    assert!(manager.is_in_transition());

    // Over once the whole duration has passed, and for good.
    assert!(manager.frame_at(1000).is_none());
    assert!(!manager.is_in_transition());
    assert!(manager.frame_at(0).is_none());
    assert!(manager.get_current_transition_frame().is_none());
}

#[test]
fn test_get_current_transition_frame_reads_the_clock() {
    let mut manager = TransitionManager::new(config(true, "scattering", 60_000));
    assert!(manager.get_current_transition_frame().is_none());
    manager.start_transition(&Text::from("a"), &Text::from("b"));
    let shown = manager.get_current_transition_frame().map(text_to_string);
    assert_eq!(shown, Some("".to_string()));
    assert_eq!(manager.current_frame_index, 0);
    assert!(manager.is_in_transition());

    let mut instant = TransitionManager::new(config(true, "scattering", 0));
    instant.start_transition(&Text::from("a"), &Text::from("b"));
    assert!(instant.get_current_transition_frame().is_none());
    assert!(!instant.is_in_transition());
}

#[test]
fn test_total_duration_saturates() {
    let manager = TransitionManager::new(config(true, "scattering", u64::MAX));
    assert_eq!(manager.total_transition_duration_ms, u64::MAX);
    let manager = TransitionManager::new(config(true, "scattering", u64::MAX / 20));
    assert_eq!(manager.total_transition_duration_ms, u64::MAX / 20 * 20);
}

#[test]
fn test_scattering_frames() {
    assert_eq!(frame("scattering", "Hello World", 0), "");
    assert_eq!(frame("scattering", "Hello World", 1), "");
    assert_eq!(frame("scattering", "Hello World", 2), "H");
    assert_eq!(frame("scattering", "Hello World", 9), "Hello");
    assert_eq!(frame("scattering", "Hello World", 18), "Hello Worl");
    assert_eq!(frame("scattering", "Hello World", 19), "Hello World");
    assert_eq!(frame("scattering", "", 7), "");
    assert_eq!(frame("scattering", "日本語のテキスト", 10), "日本語の");
}

#[test]
fn test_typewriter_frames() {
    assert_eq!(frame("typewriter", "Hello World", 0), "█");
    assert_eq!(frame("typewriter", "Hello World", 9), "Hello█");
    assert_eq!(frame("typewriter", "Hello World", 18), "Hello Worl█");
    assert_eq!(frame("typewriter", "Hello World", 19), "Hello World");
}

#[test]
fn test_scrolling_frames() {
    for effect in ["scrolling_left", "scrolling_right"] {
        assert_eq!(frame(effect, "x", 0), format!("{}x", " ".repeat(20)));
        assert_eq!(frame(effect, "x", 1), format!("{}x", " ".repeat(18)));
        assert_eq!(frame(effect, "x", 10), format!("{}x", " ".repeat(9)));
        assert_eq!(frame(effect, "x", 18), format!("{}x", " ".repeat(1)));
        assert_eq!(frame(effect, "x", 19), "x");
    }
}

#[test]
fn test_climbing_frames() {
    assert_eq!(frame("climbing", "x", 0), "\n\n\n\n\nx");
    assert_eq!(frame("climbing", "x", 3), "\n\n\n\nx");
    assert_eq!(frame("climbing", "x", 4), "\n\n\nx");
    assert_eq!(frame("climbing", "x", 15), "\nx");
    assert_eq!(frame("climbing", "x", 16), "x");
    assert_eq!(frame("climbing", "x", 19), "x");
}

#[test]
fn test_unknown_effect_passes_text_through() {
    for i in [0, 7, 19] {
        assert_eq!(frame("sparkle", "a\nb", i), "a\nb");
        assert_eq!(frame("", "a\nb", i), "a\nb");
        assert_eq!(frame("Scattering", "a\nb", i), "a\nb");
    }
}

#[test]
fn test_prerendered_frames_are_parsed() {
    let frames = prerender_transition_frames("typewriter", "ab\ncd");
    assert_eq!(frames.len(), 20);
    assert_eq!(text_to_string(&frames[0]), "█");
    assert_eq!(text_to_string(&frames[12]), "ab\n█");
    assert_eq!(text_to_string(&frames[19]), "ab\ncd");
    assert_eq!(frames[19], generate_ascii_preview(Some("ab\ncd"), 0));
    let climbing = prerender_transition_frames("climbing", "x");
    assert_eq!(line_count(&climbing[0]), 6);
    assert_eq!(line_count(&climbing[19]), 1);
}
