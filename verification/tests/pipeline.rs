use image::{DynamicImage, ImageFormat, RgbImage};
use native_iqa::pipeline::{
    admit_loaded, check_min_size, decode_checked, decode_failure_text, needs_resize, PipelineError,
    MIN_DIM,
};
use native_iqa::text::decimal_string;
use native_iqa::validation::validation_outcome;

fn png_bytes(w: u32, h: u32) -> Vec<u8> {
    let img = DynamicImage::ImageRgb8(RgbImage::from_pixel(w, h, image::Rgb([10, 20, 30])));
    let mut out = std::io::Cursor::new(Vec::new());
    img.write_to(&mut out, ImageFormat::Png).unwrap();
    out.into_inner()
}

#[test]
fn decimal_rendering() {
    assert_eq!(decimal_string(0), "0");
    assert_eq!(decimal_string(7), "7");
    assert_eq!(decimal_string(10), "10");
    assert_eq!(decimal_string(4294967295), "4294967295");
}

#[test]
fn min_size_gate() {
    assert!(check_min_size(16, 16).is_ok());
    assert!(check_min_size(MIN_DIM, 4000).is_ok());
    match check_min_size(15, 300) {
        Err(PipelineError::TooSmall { width, height }) => assert_eq!((width, height), (15, 300)),
        _ => panic!("expected TooSmall"),
    }
}

#[test]
fn too_small_message() {
    let e = PipelineError::TooSmall { width: 8, height: 20 };
    assert_eq!(e.message(), "Image too small (8×20). Minimum is 16×16.");
}

#[test]
fn garbage_is_a_decode_error() {
    match decode_checked(&[1, 2, 3, 4, 5]) {
        Err(e @ PipelineError::Decode(_)) => {
            assert!(e.message().starts_with("Failed to decode image: "))
        }
        _ => panic!("expected Decode"),
    }
}

#[test]
fn small_png_is_too_small() {
    match decode_checked(&png_bytes(8, 30)) {
        Err(PipelineError::TooSmall { width, height }) => assert_eq!((width, height), (8, 30)),
        _ => panic!("expected TooSmall"),
    }
}

#[test]
fn large_enough_png_decodes() {
    match decode_checked(&png_bytes(20, 17)) {
        Ok(d) => assert_eq!((d.width, d.height), (20, 17)),
        Err(e) => panic!("unexpected error: {}", e.message()),
    }
}

#[test]
fn validation_passes_without_failures() {
    let o = validation_outcome(None, Some(true), false, Some(true), &"normal".to_string());
    assert!(o.passed);
    assert!(o.failures.is_empty());
}

#[test]
fn validation_unset_options_reject_nothing() {
    let o = validation_outcome(None, None, true, None, &"underexposed".to_string());
    assert!(o.passed);
}

#[test]
fn validation_collects_failures_in_order() {
    let o = validation_outcome(
        Some("Score 70.0 exceeds threshold 60.0".to_string()),
        Some(true),
        true,
        Some(true),
        &"overexposed".to_string(),
    );
    assert!(!o.passed);
    assert_eq!(
        o.failures,
        vec![
            "Score 70.0 exceeds threshold 60.0".to_string(),
            "Image is blurry".to_string(),
            "Bad exposure: overexposed".to_string(),
        ]
    );
}

#[test]
fn validation_blur_only_when_rejected() {
    let o = validation_outcome(None, Some(false), true, Some(true), &"normal".to_string());
    assert!(o.passed);
    let o = validation_outcome(None, Some(true), true, Some(false), &"underexposed".to_string());
    assert_eq!(o.failures, vec!["Image is blurry".to_string()]);
}

#[test]
fn resize_only_above_max_dim() {
    assert!(!needs_resize(512, 512));
    assert!(needs_resize(513, 10));
    assert!(needs_resize(10, 513));
}

#[test]
fn admit_loaded_outcomes() {
    let rgb = |w, h| DynamicImage::ImageRgb8(RgbImage::from_pixel(w, h, image::Rgb([1, 2, 3])));
    match admit_loaded(Ok(rgb(16, 40))) {
        Ok(d) => assert_eq!((d.width, d.height), (16, 40)),
        Err(e) => panic!("unexpected error: {}", e.message()),
    }
    match admit_loaded(Ok(rgb(40, 15))) {
        Err(PipelineError::TooSmall { width, height }) => assert_eq!((width, height), (40, 15)),
        _ => panic!("expected TooSmall"),
    }
    let err = image::load_from_memory(&[9, 9, 9]).unwrap_err();
    assert!(matches!(admit_loaded(Err(err)), Err(PipelineError::Decode(_))));
}

#[test]
fn decode_failure_message() {
    assert_eq!(
        decode_failure_text("unsupported format"),
        "Failed to decode image: unsupported format"
    );
}
