use native_iqa::heuristics::blur::{is_blurry, laplacian_moments};
use native_iqa::heuristics::exposure::{classify_exposure, detect_exposure, Exposure};
use native_iqa::heuristics::noise::{classify_noise, estimate_noise, NoiseLevel};
use native_iqa::heuristics::run;
use native_iqa::moments::variance_below_from_moments;

fn checkerboard(w: usize, h: usize, a: u8, b: u8) -> Vec<u8> {
    let mut v = Vec::with_capacity(w * h);
    for row in 0..h {
        for col in 0..w {
            v.push(if (row + col) % 2 == 0 { a } else { b });
        }
    }
    v
}

#[test]
fn exposure_empty_is_normal() {
    assert_eq!(detect_exposure(&[]), "normal");
}

#[test]
fn exposure_mid_grey_is_normal() {
    assert_eq!(detect_exposure(&vec![128u8; 100]), "normal");
}

#[test]
fn exposure_dark_fraction_above_five_percent() {
    let mut px = vec![128u8; 100];
    for p in px.iter_mut().take(6) {
        *p = 29;
    }
    assert_eq!(detect_exposure(&px), "underexposed");
    assert_eq!(classify_exposure(&px), Exposure::Underexposed);
}

#[test]
fn exposure_exactly_five_percent_is_normal() {
    let mut px = vec![128u8; 20];
    px[0] = 0;
    assert_eq!(detect_exposure(&px), "normal");
    px[1] = 255;
    px[2] = 255;
    assert_eq!(detect_exposure(&px), "overexposed");
}

#[test]
fn exposure_thresholds_are_strict() {
    // 30 is not a shadow, 225 is not a highlight.
    assert_eq!(detect_exposure(&vec![30u8; 10]), "normal");
    assert_eq!(detect_exposure(&vec![225u8; 10]), "normal");
    assert_eq!(detect_exposure(&vec![226u8; 10]), "overexposed");
}

#[test]
fn exposure_shadow_clipping_takes_precedence() {
    let mut px = vec![0u8; 10];
    for p in px.iter_mut().skip(5) {
        *p = 255;
    }
    assert_eq!(detect_exposure(&px), "underexposed");
}

#[test]
fn laplacian_moments_single_peak() {
    let mut px = vec![0u8; 9];
    px[4] = 10;
    assert_eq!(laplacian_moments(&px, 3, 3), (9, -40, 1600));
}

#[test]
fn laplacian_moments_border_only_is_zero() {
    assert_eq!(laplacian_moments(&[7u8, 200, 3, 90], 2, 2), (4, 0, 0));
}

#[test]
fn constant_image_is_blurry() {
    assert!(is_blurry(&vec![77u8; 64], 8, 8));
}

#[test]
fn empty_image_is_blurry() {
    assert!(is_blurry(&[], 0, 0));
}

#[test]
fn checkerboard_is_sharp() {
    let px = checkerboard(8, 8, 0, 255);
    assert!(!is_blurry(&px, 8, 8));
}

#[test]
fn blur_threshold_is_strict() {
    // 3x3 grid with a single centre response r: variance = 9*r^2 - r^2 over 81
    // = 8 r^2 / 81; with r = -4*v.  v = 8 gives 8*1024/81 ~ 101 (sharp),
    // v = 7 gives 8*784/81 ~ 77 (blurry).
    let mut px = vec![0u8; 9];
    px[4] = 8;
    assert!(!is_blurry(&px, 3, 3));
    px[4] = 7;
    assert!(is_blurry(&px, 3, 3));
}

#[test]
fn noise_too_few_flat_pixels_is_low() {
    let px = checkerboard(7, 7, 100, 110);
    assert_eq!(estimate_noise(&px, 7, 7), "low");
}

#[test]
fn noise_levels_from_flat_variance() {
    assert_eq!(estimate_noise(&checkerboard(16, 16, 100, 104), 16, 16), "low");
    assert_eq!(estimate_noise(&checkerboard(16, 16, 100, 105), 16, 16), "medium");
    assert_eq!(estimate_noise(&checkerboard(16, 16, 100, 110), 16, 16), "high");
    assert_eq!(classify_noise(&checkerboard(16, 16, 100, 109), 16, 16), NoiseLevel::Medium);
}

#[test]
fn noise_ignores_steep_interior_pixels() {
    // Vertical stripes two pixels wide: interior gradients are 255, so only
    // the 60 border pixels are flat, which is not enough to judge.
    let mut px = Vec::new();
    for _ in 0..16 {
        for col in 0..16 {
            px.push(if (col / 2) % 2 == 0 { 0u8 } else { 255 });
        }
    }
    assert_eq!(estimate_noise(&px, 16, 16), "low");
}

#[test]
fn run_dark_flat_image() {
    let r = run(&vec![10u8; 400], 20, 20);
    assert!(r.is_blurry);
    assert_eq!(r.exposure, "underexposed");
    assert_eq!(r.noise_level, "low");
    assert_eq!(
        r.warnings,
        vec!["Image appears blurry".to_string(), "Image is underexposed".to_string()]
    );
}

#[test]
fn run_noisy_image() {
    let r = run(&checkerboard(16, 16, 100, 110), 16, 16);
    assert!(!r.is_blurry);
    assert_eq!(r.exposure, "normal");
    assert_eq!(r.noise_level, "high");
    assert_eq!(r.warnings, vec!["High noise level detected".to_string()]);
}

#[test]
fn run_clean_image_has_no_warnings() {
    let r = run(&checkerboard(16, 16, 100, 104), 16, 16);
    assert!(!r.is_blurry);
    assert_eq!(r.exposure, "normal");
    assert_eq!(r.noise_level, "low");
    assert!(r.warnings.is_empty());
}

#[test]
fn run_bright_image() {
    let r = run(&vec![250u8; 100], 10, 10);
    assert_eq!(r.exposure, "overexposed");
    assert_eq!(
        r.warnings,
        vec!["Image appears blurry".to_string(), "Image is overexposed".to_string()]
    );
}

#[test]
fn variance_moments_exact() {
    // values 100 and 105: variance 6.25
    assert!(!variance_below_from_moments(2, 205, 21025, 6));
    assert!(variance_below_from_moments(2, 205, 21025, 7));
    // values -3 and 3: variance 9
    assert!(!variance_below_from_moments(2, 0, 18, 9));
    assert!(variance_below_from_moments(2, 0, 18, 10));
    assert!(variance_below_from_moments(0, 0, 0, 1));
    assert!(!variance_below_from_moments(0, 0, 0, 0));
    // a constant never has a positive variance
    assert!(variance_below_from_moments(3, -30, 300, 1));
}

#[test]
fn exposure_ignores_pixel_order() {
    let a = [10u8, 128, 128, 240, 128, 128, 128, 128, 128, 128];
    let mut b = a;
    b.reverse();
    assert_eq!(detect_exposure(&a), detect_exposure(&b));
    assert_eq!(detect_exposure(&a), "underexposed");
}

#[test]
fn darkening_keeps_underexposure() {
    let a = [10u8, 128, 128, 240, 128, 128, 128, 128, 128, 128];
    let darker: Vec<u8> = a.iter().map(|p| p / 2).collect();
    assert_eq!(detect_exposure(&a), "underexposed");
    assert_eq!(detect_exposure(&darker), "underexposed");
}
