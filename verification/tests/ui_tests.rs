use ptui::file_browser::{FileItem, Timestamp};
use ratatui::style::{Color, Style};
use ratatui::text::{Line, Span, Text};
use ptui::ui::{
    Area, UILayout, UIRenderer, NARROW_SCREEN_WIDTH_PERCENT, WIDE_SCREEN_WIDTH_PERCENT,
};

#[test]
fn test_ui_layout_creation() {
    let layout = UILayout::new();
    assert_eq!(layout.preview_size, 0);
    assert_eq!(layout.min_divider_percent, 10);
    assert_eq!(layout.preview_width, 0);
    assert_eq!(layout.preview_height, 0);
}

#[test]
fn test_ui_layout_can_increase_size() {
    let mut layout = UILayout::new();
    layout.preview_size = 50;
    layout.min_divider_percent = 10;

    assert!(layout.can_increase_size());

    layout.preview_size = 90;
    assert!(!layout.can_increase_size());
}

#[test]
fn test_ui_layout_can_decrease_size() {
    let mut layout = UILayout::new();
    layout.preview_size = 50;
    layout.min_divider_percent = 10;

    assert!(layout.can_decrease_size());

    layout.preview_size = 10;
    assert!(!layout.can_decrease_size());
}

#[test]
fn test_ui_layout_increase_size() {
    let mut layout = UILayout::new();
    layout.preview_size = 30;
    layout.min_divider_percent = 10;

    layout.increase_size(20);
    assert_eq!(layout.preview_size, 50);

    layout.increase_size(50);
    assert_eq!(layout.preview_size, 90);
}

#[test]
fn test_ui_layout_decrease_size() {
    let mut layout = UILayout::new();
    layout.preview_size = 50;
    layout.min_divider_percent = 10;

    layout.decrease_size(20);
    assert_eq!(layout.preview_size, 30);

    layout.decrease_size(50);
    assert_eq!(layout.preview_size, 10);
}

#[test]
fn test_ui_layout_size_bounds() {
    let mut layout = UILayout::new();
    layout.min_divider_percent = 15;
    layout.preview_size = 50;

    layout.increase_size(100);
    assert_eq!(layout.preview_size, 85);

    layout.decrease_size(100);
    assert_eq!(layout.preview_size, 15);
}

#[test]
fn test_ui_layout_default_is_new() {
    let layout = UILayout::default();
    assert_eq!(layout.preview_size, 0);
    assert_eq!(layout.min_divider_percent, 10);
}

#[test]
fn test_ui_layout_huge_increment_does_not_overflow() {
    let mut layout = UILayout::new();
    layout.preview_size = 20;
    layout.min_divider_percent = 10;
    layout.increase_size(u16::MAX);
    assert_eq!(layout.preview_size, 90);
    layout.decrease_size(u16::MAX);
    assert_eq!(layout.preview_size, 10);
}

#[test]
fn test_ui_layout_odd_minimum_never_panics() {
    let mut layout = UILayout::new();
    layout.preview_size = 50;
    layout.min_divider_percent = 200;
    assert!(!layout.can_increase_size());
    assert!(!layout.can_decrease_size());
    layout.increase_size(5);
    layout.decrease_size(5);
    assert_eq!(layout.preview_size, 50);
}

#[test]
fn test_ui_layout_calculate_layout_wide_screen() {
    let mut layout = UILayout::new();
    let plan = layout.plan_layout(150, 50);
    assert_eq!(layout.min_divider_percent, WIDE_SCREEN_WIDTH_PERCENT);
    assert_eq!(layout.preview_size, WIDE_SCREEN_WIDTH_PERCENT);
    assert_eq!(plan.left_percent, 10);
    assert_eq!(plan.right_percent, 90);
    assert_eq!(plan.debug_height, 3);
    assert_eq!(plan.main_height, 47);
    assert_eq!(plan.main_height + plan.debug_height, 50);
    assert_eq!(plan.left_percent + plan.right_percent, 100);
}

#[test]
fn test_ui_layout_calculate_layout_narrow_screen() {
    let mut layout = UILayout::new();
    let plan = layout.plan_layout(80, 30);
    assert_eq!(layout.min_divider_percent, NARROW_SCREEN_WIDTH_PERCENT);
    assert_eq!(plan.left_percent, 15);
    assert_eq!(plan.right_percent, 85);
    assert_eq!(plan.debug_height, 3);
}

#[test]
fn test_ui_layout_plan_cutoff_and_small_screen() {
    let mut layout = UILayout::new();
    layout.plan_layout(120, 40);
    assert_eq!(layout.min_divider_percent, NARROW_SCREEN_WIDTH_PERCENT);
    layout.plan_layout(121, 40);
    assert_eq!(layout.min_divider_percent, WIDE_SCREEN_WIDTH_PERCENT);
    // The divider stays where the first screen put it.
    assert_eq!(layout.preview_size, NARROW_SCREEN_WIDTH_PERCENT);
    let plan = layout.plan_layout(80, 10);
    assert_eq!(plan.debug_height, 1);
    assert_eq!(plan.main_height, 9);
    let plan = layout.plan_layout(80, 0);
    assert_eq!(plan.main_height, 0);
}

#[test]
fn test_ui_layout_preview_dimensions_calculation() {
    let mut layout = UILayout::new();
    layout.set_preview_area(102, 37);
    assert_eq!(layout.preview_width, 100);
    assert_eq!(layout.preview_height, 36);
    layout.set_preview_area(1, 0);
    assert_eq!(layout.preview_width, 0);
    assert_eq!(layout.preview_height, 0);
}

#[test]
fn test_area_is_empty() {
    assert!(Area::new(3, 4, 0, 5).is_empty());
    assert!(Area::new(3, 4, 5, 0).is_empty());
    assert!(!Area::new(0, 0, 1, 1).is_empty());
    assert_eq!(Area::new(1, 2, 3, 4), Area { x: 1, y: 2, width: 3, height: 4 });
}

#[test]
fn test_ui_renderer_file_labels() {
    let dir = FileItem::new("pics".to_string(), "/pics".to_string(), true, Timestamp::epoch());
    let file = FileItem::new("a.png".to_string(), "/pics/a.png".to_string(), false, Timestamp::epoch());
    assert_eq!(UIRenderer::file_label(&dir), "📁 pics");
    assert_eq!(UIRenderer::file_label(&file), "🖼️ a.png");
}

#[test]
fn test_ui_renderer_slideshow_status() {
    assert_eq!(
        UIRenderer::slideshow_status("Slideshow", "Image", 3, 10, "Press any key"),
        "🎞️ Slideshow | Image 3/10 | Press any key"
    );
    assert_eq!(UIRenderer::slideshow_status("", "", 0, 0, ""), "🎞️  |  0/0 | ");
}

#[test]
fn test_ui_renderer_dialog_size() {
    assert_eq!(UIRenderer::dialog_size(80, 24), (50, 5));
    assert_eq!(UIRenderer::dialog_size(54, 9), (50, 5));
    assert_eq!(UIRenderer::dialog_size(53, 8), (49, 4));
    assert_eq!(UIRenderer::dialog_size(10, 6), (6, 2));
    assert_eq!(UIRenderer::dialog_size(4, 4), (0, 0));
    assert_eq!(UIRenderer::dialog_size(0, 0), (0, 0));
    assert_eq!(UIRenderer::dialog_size(u16::MAX, u16::MAX), (50, 5));
}

#[test]
fn test_ui_layout_preview_size_initialization() {
    let mut layout = UILayout::new();

    assert_eq!(layout.preview_size, 0);

    layout.plan_layout(100, 40);

    assert!(layout.preview_size > 0);
    assert_eq!(layout.preview_size, layout.min_divider_percent);
}

#[test]
fn test_ui_layout_responsiveness() {
    let mut layout = UILayout::new();

    let small = layout.plan_layout(80, 24);
    let large = layout.plan_layout(200, 60);

    assert_eq!(small.left_percent + small.right_percent, 100);
    assert_eq!(large.left_percent + large.right_percent, 100);

    assert_eq!(small.debug_height, 3);
    assert_eq!(large.debug_height, 3);
}

#[test]
fn test_layout_size_adjustments() {
    for initial_size in [10u16, 11, 45, 80, 89] {
        for increment in [1u16, 2, 7, 49] {
            for min_divider in [5u16, 10, 15, 19] {
                let mut layout = UILayout::new();
                layout.preview_size = initial_size;
                layout.min_divider_percent = min_divider;

                let max_size = 100 - min_divider;

                if layout.can_increase_size() {
                    let old_size = layout.preview_size;
                    layout.increase_size(increment);
                    assert!(layout.preview_size >= old_size);
                    assert!(layout.preview_size <= max_size);
                }

                if layout.can_decrease_size() {
                    let old_size = layout.preview_size;
                    layout.decrease_size(increment);
                    assert!(layout.preview_size <= old_size);
                    assert!(layout.preview_size >= min_divider);
                }
            }
        }
    }
}

#[test]
fn test_ui_renderer_localize_logo_text() {
    let mut logo = Text::default();
    logo.lines.push(Line::from(vec![Span::from(
        "Test {app_subtitle} v{version} Logo",
    )]));
    logo.lines.push(Line::from(vec![
        Span::styled("{version}{version}", Style::default().fg(Color::Red)),
        Span::from("plain"),
    ]));

    let localized = UIRenderer::localize_logo_text(&logo, "Image viewer", "1.2.3");

    let content = &localized.lines[0].spans[0].content;
    assert!(content.contains("Image viewer"));
    assert!(!content.contains("{app_subtitle}"));
    assert!(content.contains("1.2.3"));
    assert!(!content.contains("{version}"));
    assert_eq!(content, "Test Image viewer v1.2.3 Logo");
    assert_eq!(localized.lines.len(), 2);
    assert_eq!(localized.lines[1].spans[0].content, "1.2.31.2.3");
    assert_eq!(localized.lines[1].spans[0].style, Style::default().fg(Color::Red));
    assert_eq!(localized.lines[1].spans[1].content, "plain");
}

#[test]
fn test_fill_logo_line() {
    assert_eq!(UIRenderer::fill_logo_line("{app_subtitle}", "sub", "9"), "sub");
    assert_eq!(UIRenderer::fill_logo_line("v{version}", "sub", "9"), "v9");
    assert_eq!(UIRenderer::fill_logo_line("{app_subtitle", "sub", "9"), "{app_subtitle");
    assert_eq!(UIRenderer::fill_logo_line("{{version}}", "sub", "9"), "{9}");
    assert_eq!(UIRenderer::fill_logo_line("", "sub", "9"), "");
    // The version is filled into the subtitle too, as it comes second.
    assert_eq!(UIRenderer::fill_logo_line("{app_subtitle}", "for {version}", "9"), "for 9");
    assert_eq!(UIRenderer::fill_logo_line("{version}", "sub", "{app_subtitle}"), "{app_subtitle}");
}
