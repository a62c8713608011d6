use ptui::fast_image_loader::{Attempt, Decoder, FastImageLoader, ScalingFactor};
use ptui::pixel_buffer::{PixelBuffer, PixelLayout};

fn scale(native: u32, target: u32) -> u32 {
    FastImageLoader::select_scaling_factor(native, target).denominator()
}

#[test]
fn test_scale_factor_calculation() {
    // 4032px image, target 512px: 40320 >= 38400, an eighth.
    assert_eq!(8, scale(4032, 512));

    // 2048px image, target 512px: 20480 < 38400, 20480 >= 18944, a quarter.
    assert_eq!(4, scale(2048, 512));

    // 4032px image, target 2048px: 40320 >= 38912, a half.
    assert_eq!(2, scale(4032, 2048));

    // 5000px image, target 512px: an eighth.
    assert_eq!(8, scale(5000, 512));

    // 3024px image, target 2048px: 30240 < 38912, full size.
    assert_eq!(1, scale(3024, 2048));
}

#[test]
fn test_scale_factor_thresholds() {
    assert_eq!(FastImageLoader::select_scaling_factor(75, 10), ScalingFactor::OneEighth);
    assert_eq!(FastImageLoader::select_scaling_factor(74, 10), ScalingFactor::OneQuarter);
    assert_eq!(FastImageLoader::select_scaling_factor(37, 10), ScalingFactor::OneQuarter);
    assert_eq!(FastImageLoader::select_scaling_factor(36, 10), ScalingFactor::OneHalf);
    assert_eq!(FastImageLoader::select_scaling_factor(19, 10), ScalingFactor::OneHalf);
    assert_eq!(FastImageLoader::select_scaling_factor(18, 10), ScalingFactor::One);
    assert_eq!(FastImageLoader::select_scaling_factor(0, 0), ScalingFactor::OneEighth);
    assert_eq!(FastImageLoader::select_scaling_factor(u32::MAX, u32::MAX), ScalingFactor::One);
    assert_eq!(FastImageLoader::select_scaling_factor(u32::MAX, 1), ScalingFactor::OneEighth);
    assert_eq!(ScalingFactor::One.denominator(), 1);
    assert_eq!(ScalingFactor::OneHalf.denominator(), 2);
    assert_eq!(ScalingFactor::OneQuarter.denominator(), 4);
    assert_eq!(ScalingFactor::OneEighth.denominator(), 8);
}

#[test]
fn test_is_jpeg_path() {
    assert!(FastImageLoader::is_jpeg_path("photo.jpg"));
    assert!(FastImageLoader::is_jpeg_path("photo.jpeg"));
    assert!(FastImageLoader::is_jpeg_path("/a/b/PHOTO.JPG"));
    assert!(FastImageLoader::is_jpeg_path("Photo.JpEg"));
    assert!(!FastImageLoader::is_jpeg_path("photo.png"));
    assert!(!FastImageLoader::is_jpeg_path("jpg"));
    assert!(!FastImageLoader::is_jpeg_path("photo.jpg.bak"));
    assert!(!FastImageLoader::is_jpeg_path(""));
}

#[test]
fn test_accept_checks_the_buffer() {
    let ok = FastImageLoader::accept((2, 1, vec![1, 2, 3, 4, 5, 6]), PixelLayout::Rgb8, "short");
    let image = ok.unwrap();
    assert_eq!(image.width(), 2);
    assert_eq!(image.height(), 1);
    assert_eq!(image.layout(), PixelLayout::Rgb8);
    assert_eq!(image.as_raw(), &vec![1, 2, 3, 4, 5, 6]);

    let longer = FastImageLoader::accept((1, 1, vec![9, 8, 7, 6, 5]), PixelLayout::Rgba8, "short");
    assert_eq!(longer.unwrap().as_raw(), &vec![9, 8, 7, 6]);

    let short = FastImageLoader::accept((2, 2, vec![0; 15]), PixelLayout::Rgba8, "short");
    assert_eq!(short.unwrap_err(), "short");
}

#[test]
fn test_load_prefers_the_fast_decoder_for_jpeg() {
    let fast = PixelBuffer::from_raw(1, 1, PixelLayout::Rgb8, vec![10, 20, 30]).unwrap();
    let loaded = FastImageLoader::load_for_display("x.jpg", b"not a jpeg at all", Some(Ok(fast)));
    let image = loaded.unwrap();
    assert_eq!(image.as_raw(), &vec![10, 20, 30]);
}

#[test]
fn test_load_reports_failure_for_garbage() {
    let loaded = FastImageLoader::load_for_display(
        "x.jpg",
        b"not a jpeg at all",
        Some(Err("fast decoder failed".to_string())),
    );
    let message = loaded.unwrap_err();
    assert!(message.starts_with("Failed to load image"));
    let loaded = FastImageLoader::load_for_display("x.unknownext", b"abc", None);
    assert!(loaded.unwrap_err().starts_with("Failed to load image"));
}

#[test]
fn test_load_decodes_a_png() {
    let mut bytes: Vec<u8> = Vec::new();
    let source = image::RgbaImage::from_raw(2, 1, vec![255, 0, 0, 255, 0, 255, 0, 128]).unwrap();
    image::DynamicImage::ImageRgba8(source)
        .write_to(&mut std::io::Cursor::new(&mut bytes), image::ImageFormat::Png)
        .unwrap();
    // A fast decoder's result is not looked at for a file that is no JPEG.
    let ignored = PixelBuffer::from_raw(1, 1, PixelLayout::Rgb8, vec![1, 2, 3]).unwrap();
    let loaded = FastImageLoader::load_for_display("pic.png", &bytes, Some(Ok(ignored))).unwrap();
    assert_eq!(loaded.width(), 2);
    assert_eq!(loaded.height(), 1);
    assert_eq!(loaded.layout(), PixelLayout::Rgba8);
    assert_eq!(loaded.as_raw(), &vec![255, 0, 0, 255, 0, 255, 0, 128]);
}

#[test]
fn test_load_decodes_a_jpeg_with_the_general_decoder() {
    let mut bytes: Vec<u8> = Vec::new();
    let source = image::RgbImage::from_pixel(16, 8, image::Rgb([200, 200, 200]));
    image::DynamicImage::ImageRgb8(source)
        .write_to(&mut std::io::Cursor::new(&mut bytes), image::ImageFormat::Jpeg)
        .unwrap();
    let loaded = FastImageLoader::load_for_display("pic.jpeg", &bytes, None).unwrap();
    assert_eq!(loaded.width(), 16);
    assert_eq!(loaded.height(), 8);
    assert_eq!(loaded.layout(), PixelLayout::Rgb8);
    assert_eq!(loaded.as_raw().len(), 16 * 8 * 3);
    let first = loaded.as_raw()[0];
    assert!(first >= 195 && first <= 205);
}

#[test]
fn test_decoder_order() {
    assert_eq!(FastImageLoader::choose_first(true, true), Decoder::FastJpeg);
    assert_eq!(FastImageLoader::choose_first(true, false), Decoder::GeneralJpeg);
    assert_eq!(FastImageLoader::choose_first(false, true), Decoder::Generic);
    assert_eq!(FastImageLoader::choose_first(false, false), Decoder::Generic);
    assert_eq!(FastImageLoader::fall_back(Decoder::FastJpeg), Some(Decoder::GeneralJpeg));
    assert_eq!(FastImageLoader::fall_back(Decoder::GeneralJpeg), Some(Decoder::Generic));
    assert_eq!(FastImageLoader::fall_back(Decoder::Generic), None);
}

#[test]
fn test_conclude_an_attempt() {
    for decoder in [Decoder::FastJpeg, Decoder::GeneralJpeg, Decoder::Generic] {
        let image = PixelBuffer::from_raw(1, 1, PixelLayout::Rgb8, vec![1, 2, 3]).unwrap();
        match FastImageLoader::conclude(decoder, Ok(image)) {
            Attempt::Done(Ok(image)) => assert_eq!(image.as_raw(), &vec![1, 2, 3]),
            _ => panic!("an image ends the chain"),
        }
    }
    assert!(matches!(
        FastImageLoader::conclude(Decoder::FastJpeg, Err("a".to_string())),
        Attempt::Next(Decoder::GeneralJpeg)
    ));
    assert!(matches!(
        FastImageLoader::conclude(Decoder::GeneralJpeg, Err("b".to_string())),
        Attempt::Next(Decoder::Generic)
    ));
    match FastImageLoader::conclude(Decoder::Generic, Err("c".to_string())) {
        Attempt::Done(Err(e)) => assert_eq!(e, "c"),
        _ => panic!("the last failure ends the chain"),
    }
}

#[test]
fn test_load_falls_back_after_a_failed_fast_decoder() {
    let mut bytes: Vec<u8> = Vec::new();
    let source = image::RgbImage::from_pixel(8, 8, image::Rgb([10, 200, 30]));
    image::DynamicImage::ImageRgb8(source)
        .write_to(&mut std::io::Cursor::new(&mut bytes), image::ImageFormat::Jpeg)
        .unwrap();
    let loaded = FastImageLoader::load_for_display(
        "pic.JPG",
        &bytes,
        Some(Err("fast decoder failed".to_string())),
    )
    .unwrap();
    assert_eq!((loaded.width(), loaded.height()), (8, 8));
    assert_eq!(loaded.layout(), PixelLayout::Rgb8);
}
