use ptui::cache::PreviewContent;
use ptui::config::{ChafaConfig, ConverterConfig, GraphicalConfig, Jp2aConfig, PTuiConfig, SlideshowTransitionConfig};
use ptui::converter::{AsciiConverter, ProcessOutcome};
use ptui::file_browser::{FileItem, Timestamp};
use ptui::graphics::GraphicsCapability;
use ptui::pixel_buffer::PixelBuffer;
use ptui::preview::{
    cache_key, calculate_converter_dimensions, calculate_graphical_dimensions, classify,
    decode_target,
    generate_ascii_preview, generate_text_preview, hash_path, max_dimension_for,
    save_ascii_target, split_lines,
    FileKind, ImageDimensions, ImagePlan, PreviewManager, PreviewMessages, PreviewRequest,
    PreviewStep,
};
use ptui::text::{line_count, text_to_string};
use ratatui::text::Text;

const JPEG_BYTES: &[u8] = b"\xFF\xD8\xFF\xE0\x00\x10JFIF\x00\x01\x01\x01\x00H\x00H\x00\x00";

fn create_test_config() -> PTuiConfig {
    PTuiConfig {
        converter: ConverterConfig {
            chafa: ChafaConfig {
                format: "ansi".to_string(),
                colors: "full".to_string(),
            },
            jp2a: Jp2aConfig {
                colors: true,
                invert: false,
                dither: "none".to_string(),
                chars: None,
            },
            graphical: GraphicalConfig::default(),
            selected: "chafa".to_string(),
        },
        locale: Some("en".to_string()),
        slideshow_delay_ms: Some(1000),
        slideshow_transitions: Some(SlideshowTransitionConfig::default()),
        chafa: None,
    }
}

fn config_selecting(name: &str) -> PTuiConfig {
    let mut config = create_test_config();
    config.converter.selected = name.to_string();
    config
}

fn messages() -> PreviewMessages {
    PreviewMessages {
        directory_selected: "Directory selected".to_string(),
        image_file_prefix: "Image file: ".to_string(),
        ascii_file_prefix: "ASCII file: ".to_string(),
        text_file_prefix: "Text file: ".to_string(),
        file_type_not_supported: "File type not supported".to_string(),
        not_supported_file_type: "Preview is not available for this file type".to_string(),
    }
}

fn create_test_file_item(name: &str, is_directory: bool) -> FileItem {
    FileItem::new(
        name.to_string(),
        format!("/test/path/{}", name),
        is_directory,
        Timestamp::epoch(),
    )
}

fn create_test_image_file_item(name: &str) -> FileItem {
    create_test_file_item(&format!("{}.jpg", name), false)
}

fn succeeded(stdout: &str) -> ProcessOutcome {
    ProcessOutcome::Exited {
        success: true,
        stdout: stdout.to_string(),
        stderr: String::new(),
    }
}

fn numbered_lines(count: usize) -> Vec<String> {
    (0..count).map(|i| format!("Line {}", i)).collect()
}

#[test]
fn test_preview_manager_creation() {
    let config = create_test_config();
    let manager = PreviewManager::new(config);

    assert!(manager.cache.is_empty());
    assert_eq!(manager.debug_info, "");
    assert_eq!(manager.converter.get_name(), "chafa");
    assert_eq!(manager.capability, GraphicsCapability::Unsupported);
}

#[test]
fn test_preview_manager_cache_operations() {
    let config = create_test_config();
    let mut manager = PreviewManager::new(config);
    let file_item = create_test_image_file_item("test");

    manager.remove_from_cache(&file_item, 80, 24);

    manager.clear_cache();
    assert!(manager.cache.is_empty());
}

#[test]
fn test_preview_manager_directory_preview() {
    let mut manager = PreviewManager::new(create_test_config());
    let dir_item = create_test_file_item("test_dir", true);
    assert_eq!(classify(&dir_item, None), FileKind::Directory);

    let step = manager.generate_preview(&dir_item, FileKind::Directory, 80, 24, &messages());

    assert_eq!(manager.debug_info, messages().directory_selected);
    match step {
        PreviewStep::Show(preview) => {
            assert!(!preview.lines.is_empty());
            assert_eq!(text_to_string(&preview), "Directory selected");
        }
        _ => panic!("a directory is shown as a message"),
    }
}

#[test]
fn test_preview_manager_text_file_preview() {
    let mut manager = PreviewManager::new(create_test_config());
    let file_item = create_test_file_item("test.txt", false);
    let content = b"Line 1\nLine 2\nLine 3";
    assert_eq!(classify(&file_item, Some(content)), FileKind::Text);

    let step = manager.generate_preview(&file_item, FileKind::Text, 80, 24, &messages());
    assert!(matches!(step, PreviewStep::ReadText));
    assert!(manager.debug_info.contains("test.txt"));
    assert_eq!(manager.debug_info, "Text file: test.txt");

    let lines = vec!["Line 1".to_string(), "Line 2".to_string(), "Line 3".to_string()];
    let preview = generate_text_preview(Some(&lines), false, 0, 24);
    assert!(!preview.lines.is_empty());
    assert_eq!(text_to_string(&preview), "Line 1\nLine 2\nLine 3");
}

#[test]
fn test_preview_manager_ascii_file_preview() {
    let ascii_content = "\x1b[31mRed\x1b[0m \x1b[32mGreen\x1b[0m";
    let mut manager = PreviewManager::new(create_test_config());
    let file_item = create_test_file_item("test.ascii", false);
    assert_eq!(classify(&file_item, Some(ascii_content.as_bytes())), FileKind::Ascii);

    let step = manager.generate_preview(&file_item, FileKind::Ascii, 80, 24, &messages());
    assert!(matches!(step, PreviewStep::ReadAscii));
    assert!(manager.debug_info.contains("test.ascii"));

    let preview = generate_ascii_preview(Some(ascii_content), 0);
    assert!(!preview.lines.is_empty());
    assert_eq!(text_to_string(&preview), "Red Green");
}

#[test]
fn test_preview_manager_unsupported_file() {
    let mut manager = PreviewManager::new(create_test_config());
    let unsupported_item = create_test_file_item("test.xyz", false);
    assert_eq!(classify(&unsupported_item, None), FileKind::Unsupported);
    assert_eq!(classify(&unsupported_item, Some(b"\x00\x01\x02\x03\x04")), FileKind::Unsupported);

    let step =
        manager.generate_preview(&unsupported_item, FileKind::Unsupported, 80, 24, &messages());

    assert_eq!(manager.debug_info, messages().file_type_not_supported);
    match step {
        PreviewStep::Show(preview) => assert!(!preview.lines.is_empty()),
        _ => panic!("an unsupported file is shown as a message"),
    }
}

#[test]
fn test_preview_manager_image_caching() {
    let mut manager = PreviewManager::new(create_test_config());
    let file_item = create_test_file_item("test.jpg", false);
    assert_eq!(classify(&file_item, Some(JPEG_BYTES)), FileKind::Image);

    let first = manager.generate_preview(&file_item, FileKind::Image, 80, 24, &messages());
    let key = match first {
        PreviewStep::RenderImage(key) => key,
        _ => panic!("the first preview must be rendered"),
    };
    assert_eq!(key, "/test/path/test.jpg:80x24");
    let shown = manager.complete_text_preview(key, &succeeded("art"));
    let cache_size_after_first = manager.cache.len();

    let second = manager.generate_preview(&file_item, FileKind::Image, 80, 24, &messages());
    let cache_size_after_second = manager.cache.len();
    assert_eq!(cache_size_after_first, cache_size_after_second);
    assert_eq!(cache_size_after_first, 1);

    // The second time nothing is to be run: the preview is in the cache,
    // and it is the one that was shown.
    match second {
        PreviewStep::Cached(key) => match manager.cache.get(&key) {
            Some(PreviewContent::Text(cached)) => assert_eq!(cached, &shown),
            _ => panic!("the preview is not where the step says"),
        },
        _ => panic!("the second preview must come from the cache"),
    }

    // Another size is another preview.
    let other = manager.generate_preview(&file_item, FileKind::Image, 80, 25, &messages());
    assert!(matches!(other, PreviewStep::RenderImage(_)));

    // After invalidation the image is rendered again.
    manager.remove_from_cache(&file_item, 80, 24);
    let third = manager.generate_preview(&file_item, FileKind::Image, 80, 24, &messages());
    assert!(matches!(third, PreviewStep::RenderImage(_)));
}

#[test]
fn test_preview_manager_text_file_scrolling() {
    let lines = numbered_lines(50);

    let preview1 = generate_text_preview(Some(&lines), false, 0, 10);
    let content1 = text_to_string(&preview1);

    let preview2 = generate_text_preview(Some(&lines), false, 5, 10);
    let content2 = text_to_string(&preview2);

    assert!(content1.contains("Line 0"));
    assert!(!content1.contains("Line 10"));

    assert!(content2.contains("Line 5"));
    assert!(!content2.contains("Line 0"));
    assert_eq!(line_count(&preview1), 10);
    assert!(content2.starts_with("Line 5\nLine 6\n"));
    assert!(content2.ends_with("\nLine 14"));
}

#[test]
fn test_preview_manager_text_file_line_limit() {
    let lines = numbered_lines(10002);

    let preview = generate_text_preview(Some(&lines), false, 0, 15000);
    let content = text_to_string(&preview);

    assert!(content.contains("file too large for scrolling"));
    assert_eq!(line_count(&preview), 10002);
    assert!(content.contains("Line 10000\n"));
    assert!(!content.contains("Line 10001"));
    assert!(content.ends_with("... (file too large for scrolling, showing first 10000 lines)"));

    let exact = numbered_lines(10000);
    let preview = generate_text_preview(Some(&exact), false, 0, u16::MAX);
    assert_eq!(line_count(&preview), 10000);
    assert!(!text_to_string(&preview).contains("file too large"));
}

#[test]
fn test_text_preview_edges() {
    let lines = numbered_lines(3);
    assert_eq!(
        text_to_string(&generate_text_preview(Some(&lines), false, 3, 10)),
        "(End of file)"
    );
    assert_eq!(
        text_to_string(&generate_text_preview(Some(&lines), false, 2, 10)),
        "Line 2"
    );
    assert_eq!(
        text_to_string(&generate_text_preview(Some(&lines), true, 2, 10)),
        "Line 2\nError reading file"
    );
    assert_eq!(text_to_string(&generate_text_preview(Some(&lines), false, 1, 0)), "");
    assert_eq!(
        text_to_string(&generate_text_preview(None, false, 0, 10)),
        "Error: Could not open file"
    );
    assert_eq!(
        text_to_string(&generate_text_preview(Some(&lines), false, usize::MAX, u16::MAX)),
        "(End of file)"
    );
}

#[test]
fn test_preview_manager_empty_file() {
    let none: Vec<String> = Vec::new();
    let preview = generate_text_preview(Some(&none), false, 0, 24);
    assert!(!preview.lines.is_empty());
    assert_eq!(text_to_string(&preview), "(End of file)");
}

#[test]
fn test_ascii_preview_scrolling() {
    let content = "one\n\x1b[1mtwo\x1b[0m\nthree";
    assert_eq!(text_to_string(&generate_ascii_preview(Some(content), 0)), "one\ntwo\nthree");
    assert_eq!(text_to_string(&generate_ascii_preview(Some(content), 1)), "two\nthree");
    assert_eq!(text_to_string(&generate_ascii_preview(Some(content), 2)), "three");
    // Beyond the last line nothing is left out.
    assert_eq!(text_to_string(&generate_ascii_preview(Some(content), 3)), "one\ntwo\nthree");
    assert_eq!(
        text_to_string(&generate_ascii_preview(None, 0)),
        "Error: Could not read ASCII file"
    );
}

#[test]
fn test_split_lines() {
    let text = "a\nb\r\n\nc\r";
    let chars: Vec<char> = text.chars().collect();
    let lines: Vec<String> = split_lines(&chars)
        .iter()
        .map(|&(a, b)| chars[a..b].iter().collect())
        .collect();
    let expected: Vec<&str> = text.lines().collect();
    assert_eq!(lines, expected);
    assert_eq!(lines, vec!["a", "b", "", "c\r"]);
    assert!(split_lines(&Vec::new()).is_empty());
    let only_feed: Vec<char> = "\n".chars().collect();
    assert_eq!(split_lines(&only_feed), vec![(0, 0)]);
    let bare_return: Vec<char> = "\r\n\r\n".chars().collect();
    assert_eq!(split_lines(&bare_return), vec![(0, 0), (2, 2)]);
}

#[test]
fn test_image_dimensions_fallback() {
    let (width, height) = ImageDimensions::get_dimensions(None, None);
    assert_eq!(width, 800);
    assert_eq!(height, 600);
}

#[test]
fn test_image_dimensions_probe_order() {
    assert_eq!(ImageDimensions::get_dimensions(Some("640 480"), Some("x: PNG 1 x 2")), (640, 480));
    assert_eq!(ImageDimensions::get_dimensions(Some("640"), Some("x: PNG 1 x 2")), (1, 2));
    assert_eq!(ImageDimensions::get_dimensions(None, Some("x: PNG 3x4")), (3, 4));
    assert_eq!(ImageDimensions::get_dimensions(Some("wide tall"), Some("x: data")), (800, 600));
    assert_eq!(ImageDimensions::get_dimensions(Some("0 0"), None), (0, 0));
    assert_eq!(ImageDimensions::parse_identify_output(" 1920\t1080 extra\n"), Some((1920, 1080)));
    assert_eq!(ImageDimensions::parse_identify_output("1920"), None);
    assert_eq!(ImageDimensions::parse_identify_output(""), None);
    assert_eq!(ImageDimensions::parse_identify_output("1920 x"), None);
    assert_eq!(
        ImageDimensions::identify_arguments("/a b.png"),
        vec!["-format", "%w %h", "/a b.png"]
    );
}

#[test]
fn test_image_dimensions_extract_from_file_output() {
    let output_with_x_separator = "test.jpg: JPEG image data 1920 x 1080 quality 85%";
    let result = ImageDimensions::extract_dimensions_from_file_output(output_with_x_separator);
    assert_eq!(result, Some((1920, 1080)));

    let output_without_dimensions = "test.jpg: ASCII text";
    let result = ImageDimensions::extract_dimensions_from_file_output(output_without_dimensions);
    assert_eq!(result, None);

    let output_with_unicode_x = "test.jpg: PNG image data 800 × 600 8-bit/color RGBA";
    let result = ImageDimensions::extract_dimensions_from_file_output(output_with_unicode_x);
    assert_eq!(result, Some((800, 600)));

    let output_with_compact_format = "test.jpg: JPEG 1920x1080 24-bit";
    let result = ImageDimensions::extract_dimensions_from_file_output(output_with_compact_format);
    assert_eq!(result, Some((1920, 1080)));
}

#[test]
fn test_image_dimensions_extract_edges() {
    let extract = ImageDimensions::extract_dimensions_from_file_output;
    assert_eq!(extract("a.png: PNG 640×480"), Some((640, 480)));
    // Three words win over one word, wherever they stand.
    assert_eq!(extract("10x20 then 30 x 40"), Some((30, 40)));
    // The first of several.
    assert_eq!(extract("1 x 2 3 x 4"), Some((1, 2)));
    assert_eq!(extract("1x2 3x4"), Some((1, 2)));
    // A word is split at its first sign only.
    assert_eq!(extract("1x2x3"), None);
    assert_eq!(extract("ax1 2x3"), Some((2, 3)));
    assert_eq!(extract("data 5 x 6"), Some((5, 6)));
    assert_eq!(extract("5 x 6"), Some((5, 6)));
    assert_eq!(extract("5 x"), None);
    assert_eq!(extract("5 X 6 ."), None);
    assert_eq!(extract("4294967296 x 1 ."), None);
    assert_eq!(extract("x"), None);
    assert_eq!(extract(""), None);
}

#[test]
fn test_preview_manager_debug_info() {
    let manager = PreviewManager::new(create_test_config());

    assert_eq!(manager.get_debug_info(), "");
}

#[test]
fn test_preview_manager_set_message() {
    let mut manager = PreviewManager::new(create_test_config());

    assert_eq!(manager.get_debug_info(), "");

    manager.set_message("Test message".to_string());
    assert_eq!(manager.get_debug_info(), "Test message");

    manager.set_message("Another message".to_string());
    assert_eq!(manager.get_debug_info(), "Another message");
}

#[test]
fn test_preview_manager_cache_key_format() {
    let mut manager = PreviewManager::new(create_test_config());
    let file_item = create_test_image_file_item("test");

    manager.remove_from_cache(&file_item, 100, 50);

    assert!(manager.cache.is_empty());
    assert_eq!(cache_key("/test/path/test.jpg", 100, 50), "/test/path/test.jpg:100x50");
    assert_eq!(cache_key("", 0, 65535), ":0x65535");
}

#[test]
fn test_preview_manager_calculate_converter_dimensions() {
    // A picture of one pixel, as the size query reports it.
    let (img_width, img_height) = ImageDimensions::get_dimensions(Some("1 1"), None);
    let (width, height) = calculate_converter_dimensions(img_width, img_height, 80, 24);

    assert!(width > 0);
    assert!(height > 0);
    assert!(width <= 80);
    assert!(height <= 24);
    assert_eq!((width, height), (72, 24));
}

#[test]
fn test_converter_dimensions_values() {
    // Width-constrained: 80 / (1600/200) = 10 rows.
    assert_eq!(calculate_converter_dimensions(1600, 200, 80, 24), (80, 10));
    // Height-constrained: 24 * (800/600) * 3 = 96, capped at 80.
    assert_eq!(calculate_converter_dimensions(800, 600, 80, 24), (80, 24));
    // Height-constrained, not capped: 24 * (100/400) * 3 = 18.
    assert_eq!(calculate_converter_dimensions(100, 400, 80, 24), (18, 24));
    // Exactly fitting by width.
    assert_eq!(calculate_converter_dimensions(80, 24, 80, 24), (80, 24));
    // Rounded down.
    assert_eq!(calculate_converter_dimensions(1, 1, 80, 24), (72, 24));
    assert_eq!(calculate_converter_dimensions(3, 1, 80, 24), (80, 24));
    assert_eq!(calculate_converter_dimensions(7, 2, 80, 24), (80, 22));
    // Unknown size: the whole area.
    assert_eq!(calculate_converter_dimensions(0, 600, 80, 24), (80, 24));
    assert_eq!(calculate_converter_dimensions(800, 0, 80, 24), (80, 24));
    // Empty bounds.
    assert_eq!(calculate_converter_dimensions(800, 600, 0, 24), (0, 0));
    assert_eq!(calculate_converter_dimensions(800, 600, 80, 0), (0, 0));
    // Extremes.
    assert_eq!(calculate_converter_dimensions(1, u32::MAX, u16::MAX, u16::MAX), (0, u16::MAX));
    // A height beyond 16 bits is still compared as it is.
    assert_eq!(calculate_converter_dimensions(1, 100000, 100, u16::MAX), (1, u16::MAX));
    assert_eq!(calculate_converter_dimensions(1, 65535, 1, u16::MAX), (1, u16::MAX));
    assert_eq!(calculate_converter_dimensions(1, 65536, 1, u16::MAX), (1, u16::MAX));
    assert_eq!(calculate_converter_dimensions(1, 65536, 3, 21846), (1, 21846));
    assert_eq!(calculate_converter_dimensions(1, 65536, 3, 21844), (0, 21844));
    assert_eq!(calculate_converter_dimensions(100000, 1, u16::MAX, 1), (u16::MAX, 0));
    assert_eq!(calculate_converter_dimensions(u32::MAX, 1, u16::MAX, u16::MAX), (u16::MAX, 0));
    assert_eq!(calculate_converter_dimensions(1, u32::MAX, 5, 5), (0, 5));
}

#[test]
fn test_converter_dimensions_never_exceed_bounds() {
    let sizes = [0u32, 1, 2, 3, 7, 99, 100, 101, 640, 4032, 65535, 65536, u32::MAX];
    let bounds = [0u16, 1, 2, 23, 24, 80, 255, 65535];
    for &w in &sizes {
        for &h in &sizes {
            for &max_w in &bounds {
                for &max_h in &bounds {
                    let (fw, fh) = calculate_converter_dimensions(w, h, max_w, max_h);
                    assert!(fw <= max_w && fh <= max_h, "{}x{} in {}x{}", w, h, max_w, max_h);
                }
            }
        }
    }
}

#[test]
fn test_end_to_end_text_preview_of_a_square_image() {
    // A 100x100 picture in 80x24 cells with a text-mode converter.
    let mut manager = PreviewManager::new(create_test_config());
    let file = create_test_file_item("square.png", false);
    let step = manager.generate_preview(&file, FileKind::Image, 80, 24, &messages());
    let key = match step {
        PreviewStep::RenderImage(key) => key,
        _ => panic!("nothing is cached yet"),
    };
    let dimensions = ImageDimensions::get_dimensions(Some("100 100"), None);
    let plan = manager.plan_image(&file.path, dimensions, 80, 24, &messages());
    assert_eq!(manager.debug_info, "Image file: square.png");
    let command = match plan {
        ImagePlan::Text(command) => command,
        _ => panic!("a text-mode converter renders text"),
    };
    assert_eq!(command.program, "chafa");
    assert_eq!(
        command.args,
        vec!["-f", "ansi", "-c", "full", "--size", "72x24", "/test/path/square.png"]
    );
    let shown = manager.complete_text_preview(key.clone(), &succeeded("\x1b[31m##\x1b[0m\n##"));
    assert_eq!(text_to_string(&shown), "##\n##");
    assert!(matches!(manager.cache.get(&key), Some(PreviewContent::Text(_))));
}

#[test]
fn test_plan_image_with_unknown_size() {
    let mut manager = PreviewManager::new(config_selecting("jp2a"));
    let plan = manager.plan_image("relative.png", (0, 0), 40, 12, &messages());
    assert_eq!(manager.debug_info, "Image file: relative.png | Using fallback dimensions");
    match plan {
        ImagePlan::Text(command) => {
            assert_eq!(command.program, "jp2a");
            assert_eq!(command.args, vec!["--size=40x12", "--colors", "relative.png"]);
        }
        _ => panic!("jp2a renders text"),
    }
}

#[test]
fn test_render_with_converter_failure() {
    let mut manager = PreviewManager::new(create_test_config());
    manager.set_message("before".to_string());
    let failed = ProcessOutcome::Exited {
        success: false,
        stdout: String::new(),
        stderr: "no such file".to_string(),
    };
    let shown = manager.render_with_converter(&failed);
    assert_eq!(text_to_string(&shown), "Failed to execute chafa: Chafa error: no such file");
    assert_eq!(manager.debug_info, "chafa error: Chafa error: no such file");

    let missing = ProcessOutcome::NotStarted("not found".to_string());
    let shown = manager.render_with_converter(&missing);
    assert_eq!(
        text_to_string(&shown),
        "Failed to execute chafa: Failed to execute chafa: not found"
    );

    manager.set_message("kept".to_string());
    let shown = manager.render_with_converter(&succeeded("ok"));
    assert_eq!(text_to_string(&shown), "ok");
    assert_eq!(manager.debug_info, "kept");
    assert!(manager.cache.is_empty());
}

#[test]
fn test_graphical_mode_needs_converter_and_terminal() {
    let kitty = GraphicsCapability::Kitty;
    let none = GraphicsCapability::Unsupported;
    assert!(PreviewManager::with_graphics(config_selecting("graphical"), kitty, (8, 16)).uses_graphics());
    assert!(!PreviewManager::with_graphics(config_selecting("graphical"), none, (8, 16)).uses_graphics());
    assert!(!PreviewManager::with_graphics(config_selecting("graphical"), GraphicsCapability::Iterm2, (8, 16)).uses_graphics());
    assert!(!PreviewManager::with_graphics(config_selecting("chafa"), kitty, (8, 16)).uses_graphics());
    assert!(!PreviewManager::new(config_selecting("graphical")).uses_graphics());

    // Without graphics the graphical converter falls back to chafa text.
    let mut fallback = PreviewManager::new(config_selecting("graphical"));
    match fallback.plan_image("/p/a.png", (100, 100), 80, 24, &messages()) {
        ImagePlan::Text(command) => assert_eq!(command.program, "chafa"),
        _ => panic!("no graphics without a terminal for them"),
    }
    assert!(!fallback.converter_supports_transitions());
}

#[test]
fn test_graphical_preview_flow() {
    let mut config = config_selecting("graphical");
    config.converter.graphical.auto_resize = false;
    config.converter.graphical.max_dimension = 512;
    let mut manager = PreviewManager::with_graphics(config, GraphicsCapability::Kitty, (10, 20));
    let file = create_test_file_item("pic.png", false);
    let key = match manager.generate_preview(&file, FileKind::Image, 80, 24, &messages()) {
        PreviewStep::RenderImage(key) => key,
        _ => panic!("nothing is cached yet"),
    };
    match manager.plan_image(&file.path, (100, 50), 80, 24, &messages()) {
        ImagePlan::Graphical { max_dimension, pixel_size } => {
            assert_eq!(max_dimension, 512);
            // 80x24 cells of 10x20 pixels hold 800x480; 100x50 fills the width.
            assert_eq!(pixel_size, (800, 400));
        }
        _ => panic!("graphics are on"),
    }
    let image = PixelBuffer::new(100, 50).unwrap();
    assert!(manager
        .complete_graphical_preview(key.clone(), &file.path, Ok(image))
        .is_none());
    match manager.cache.get(&key) {
        Some(PreviewContent::Graphical(preview)) => {
            assert_eq!(preview.native_width, 100);
            assert_eq!(preview.native_height, 50);
            assert_eq!(preview.protocol_type, GraphicsCapability::Kitty);
            assert_eq!(preview.protocol.max_dimension, 512);
            assert_eq!(preview.protocol.unique_id, hash_path(&file.path));
            assert!(preview.protocol.needs_retransmit);
        }
        _ => panic!("the graphical preview was not stored"),
    }
    assert!(matches!(
        manager.generate_preview(&file, FileKind::Image, 80, 24, &messages()),
        PreviewStep::Cached(_)
    ));

    // A failure to decode is shown, and stored so that the decoder does not
    // run again for the key.
    let other = create_test_file_item("broken.png", false);
    let shown = manager.complete_graphical_preview(
        "broken:80x24".to_string(),
        &other.path,
        Err("Failed to load image: bad".to_string()),
    );
    assert_eq!(shown.map(|t| text_to_string(&t)), Some("Failed to load image: bad".to_string()));
    assert_eq!(manager.debug_info, "Failed to load image: bad");
    match manager.cache.get("broken:80x24") {
        Some(PreviewContent::Text(stored)) => {
            assert_eq!(text_to_string(stored), "Failed to load image: bad")
        }
        _ => panic!("the failure was not stored"),
    }
    let broken_key = match manager.generate_preview(&other, FileKind::Image, 80, 24, &messages()) {
        PreviewStep::RenderImage(key) => key,
        _ => panic!("nothing is cached for the broken file yet"),
    };
    manager.complete_graphical_preview(broken_key, &other.path, Err("bad".to_string()));
    assert!(matches!(
        manager.generate_preview(&other, FileKind::Image, 80, 24, &messages()),
        PreviewStep::Cached(_)
    ));
}

#[test]
fn test_update_config_switches_converter_and_clears_cache() {
    let mut manager = PreviewManager::new(create_test_config());
    manager.complete_text_preview("k".to_string(), &succeeded("x"));
    assert_eq!(manager.cache.len(), 1);
    assert!(!manager.converter_supports_transitions());
    manager.update_config(config_selecting("jp2a"));
    assert!(manager.cache.is_empty());
    assert_eq!(manager.converter.get_name(), "jp2a");
    assert!(manager.converter_supports_transitions());
    assert_eq!(manager.config.converter.selected, "jp2a");
}

#[test]
fn test_max_dimension_for_display() {
    let mut graphical = GraphicalConfig::default();
    assert_eq!(max_dimension_for(&graphical, 80, 24, (8, 16)), 640);
    assert_eq!(max_dimension_for(&graphical, 20, 50, (8, 16)), 800);
    assert_eq!(max_dimension_for(&graphical, 0, 0, (8, 16)), 1);
    assert_eq!(
        max_dimension_for(&graphical, u16::MAX, u16::MAX, (u16::MAX, u16::MAX)),
        65535 * 65535
    );
    graphical.auto_resize = false;
    assert_eq!(max_dimension_for(&graphical, 80, 24, (8, 16)), 384);
}

#[test]
fn test_graphical_dimensions_values() {
    // 80x24 cells of 10x20 pixels: 800x480 pixels.
    assert_eq!(calculate_graphical_dimensions(1600, 800, 80, 24, 10, 20), (800, 400));
    assert_eq!(calculate_graphical_dimensions(100, 100, 80, 24, 10, 20), (480, 480));
    assert_eq!(calculate_graphical_dimensions(800, 480, 80, 24, 10, 20), (800, 480));
    assert_eq!(calculate_graphical_dimensions(7, 3, 1, 1, 10, 20), (10, 4));
    assert_eq!(calculate_graphical_dimensions(0, 5, 80, 24, 10, 20), (0, 0));
    assert_eq!(calculate_graphical_dimensions(5, 5, 0, 24, 10, 20), (0, 0));
    assert_eq!(calculate_graphical_dimensions(5, 5, 80, 0, 10, 20), (0, 0));
    assert_eq!(
        calculate_graphical_dimensions(u32::MAX, u32::MAX, u16::MAX, u16::MAX, u16::MAX, u16::MAX),
        (65535 * 65535, 65535 * 65535)
    );
}

#[test]
fn test_hash_path() {
    assert_eq!(hash_path(""), 0);
    assert_eq!(hash_path("a"), 97);
    assert_eq!(hash_path("ab"), ((97u32 * 31 + 98) % 256) as u8);
    assert_ne!(hash_path("/p/a.png"), hash_path("/p/b.png"));
    assert_eq!(hash_path("/p/a.png"), hash_path("/p/a.png"));
}

#[test]
fn test_classify_order() {
    let art = create_test_file_item("pic.ascii", false);
    // An image by content is an image, whatever its name.
    assert_eq!(classify(&art, Some(JPEG_BYTES)), FileKind::Image);
    assert_eq!(classify(&art, Some(b"text")), FileKind::Ascii);
    assert_eq!(classify(&art, None), FileKind::Ascii);
    let dir = create_test_file_item("pic.ascii", true);
    assert_eq!(classify(&dir, Some(JPEG_BYTES)), FileKind::Directory);
    let text = create_test_file_item("notes", false);
    assert_eq!(classify(&text, Some(b"")), FileKind::Text);
    assert_eq!(classify(&text, None), FileKind::Unsupported);
}

#[test]
fn test_preview_request_key() {
    let request = PreviewRequest {
        path: "/p/a.png".to_string(),
        width: 80,
        height: 24,
        scroll_offset: 7,
    };
    assert_eq!(request.cache_key(), "/p/a.png:80x24");
}

#[test]
fn test_messages_become_plain_text() {
    let mut manager = PreviewManager::new(create_test_config());
    let mut shown = messages();
    shown.directory_selected = "a\nb\r\nc\n".to_string();
    let dir = create_test_file_item("d", true);
    match manager.generate_preview(&dir, FileKind::Directory, 80, 24, &shown) {
        PreviewStep::Show(text) => {
            assert_eq!(text, Text::from("a\nb\r\nc\n"));
            assert_eq!(line_count(&text), 3);
            assert_eq!(text_to_string(&text), "a\nb\nc");
        }
        _ => panic!("a directory is shown as a message"),
    }
    let empty: Vec<String> = Vec::new();
    assert_eq!(line_count(&generate_text_preview(Some(&empty), false, 0, 0)), 1);
}

#[test]
fn test_ascii_preview_parses_styles() {
    let text = generate_ascii_preview(Some("\x1b[31mRed\x1b[0m \x1b[32mGreen\x1b[0m\nplain"), 0);
    assert_eq!(line_count(&text), 2);
    assert_eq!(text_to_string(&text), "Red Green\nplain");
    assert_ne!(text, Text::from("Red Green\nplain"));
    assert_eq!(text.lines[0].spans.len(), 3);
    assert_eq!(text_to_string(&generate_ascii_preview(Some(""), 0)), "");
    let rest = generate_ascii_preview(Some("\x1b[1mone\x1b[0m\ntwo\nthree"), 2);
    assert_eq!(text_to_string(&rest), "three");
    assert_eq!(line_count(&rest), 1);
}

#[test]
fn test_preview_manager_save_ascii_to_file() {
    let file_item = create_test_file_item("source.jpg", false);
    assert_eq!(classify(&file_item, Some(JPEG_BYTES)), FileKind::Image);

    let result = save_ascii_target(&file_item.path, true, "Selected file is not an image");

    match result {
        Ok(target) => {
            assert_eq!(target, "/test/path/source.ascii");
        }
        Err(e) => {
            assert!(e.contains("chafa") || e.contains("Failed"));
        }
    }
}

#[test]
fn test_preview_manager_save_ascii_non_image_file() {
    let text_item = create_test_file_item("document.txt", false);
    assert_eq!(classify(&text_item, Some(b"words")), FileKind::Text);

    let result = save_ascii_target(&text_item.path, false, "Selected file is not an image");

    assert!(result.is_err());
    assert!(result.unwrap_err().contains("not an image"));
}

#[test]
fn test_preview_caching_behavior() {
    let mut manager = PreviewManager::new(PTuiConfig::default());
    let file_item = create_test_file_item("test.jpg", false);

    let mut previews = Vec::new();
    for _ in 0..2 {
        match manager.generate_preview(&file_item, FileKind::Image, 80, 24, &messages()) {
            PreviewStep::RenderImage(key) => {
                previews.push(manager.complete_text_preview(key, &succeeded("art")));
            }
            PreviewStep::Cached(key) => match manager.cache.get(&key) {
                Some(PreviewContent::Text(text)) => previews.push(text.clone()),
                _ => panic!("the preview is not where the step says"),
            },
            _ => panic!("an image is rendered or cached"),
        }
    }
    assert!(!previews[0].lines.is_empty());
    assert!(!previews[1].lines.is_empty());
    assert_eq!(previews[0], previews[1]);
    assert_eq!(manager.cache.len(), 1);

    manager.clear_cache();
    let step = manager.generate_preview(&file_item, FileKind::Image, 80, 24, &messages());
    let preview3 = match step {
        PreviewStep::RenderImage(key) => manager.complete_text_preview(key, &succeeded("art")),
        _ => panic!("after clearing, the image is rendered again"),
    };
    assert!(!preview3.lines.is_empty());
}

#[test]
fn test_decode_target() {
    assert_eq!(decode_target(1024, (800, 400)), 800);
    assert_eq!(decode_target(1024, (300, 480)), 480);
    assert_eq!(decode_target(384, (800, 400)), 384);
    assert_eq!(decode_target(384, (384, 1)), 384);
    // The size on screen is not known.
    assert_eq!(decode_target(384, (0, 0)), 384);
    assert_eq!(decode_target(384, (100, 0)), 384);
    assert_eq!(decode_target(0, (5, 5)), 0);
}

#[test]
fn test_unstyled_text_lines() {
    for content in ["", "one", "a\nb", "a\n", "\n", "\n\n", "a\r\nb\r", "\r", "a\n\nb", "x\r\r\ny"] {
        let mut shown = messages();
        shown.directory_selected = content.to_string();
        let mut manager = PreviewManager::new(create_test_config());
        let dir = create_test_file_item("d", true);
        let text = match manager.generate_preview(&dir, FileKind::Directory, 80, 24, &shown) {
            PreviewStep::Show(text) => text,
            _ => panic!("a directory is shown as a message"),
        };
        let held: Vec<Vec<String>> = text
            .lines
            .iter()
            .map(|line| line.spans.iter().map(|span| span.content.to_string()).collect())
            .collect();
        let chars: Vec<char> = content.chars().collect();
        let expected: Vec<Vec<String>> = if content.is_empty() {
            vec![Vec::new()]
        } else {
            split_lines(&chars)
                .iter()
                .map(|&(a, b)| {
                    if a == b {
                        Vec::new()
                    } else {
                        vec![chars[a..b].iter().collect::<String>()]
                    }
                })
                .collect()
        };
        assert_eq!(held, expected, "{:?}", content);
    }
}
