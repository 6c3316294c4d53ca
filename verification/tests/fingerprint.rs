use clip_pipeline::config::default_auto_start;
use clip_pipeline::config::default_max_image_history;
use clip_pipeline::config::default_max_text_history;
use clip_pipeline::config::AppConfig;
use clip_pipeline::errors::PipelineError;
use clip_pipeline::fingerprint::calculate_image_hash;
use clip_pipeline::fingerprint::calculate_image_hash_internal;

/// The reduction the fingerprint applies, written out independently: fold the
/// first 1000 characters with a wrapping `(h << 5) - h + c` on an `i32`.
fn reference_reduce(s: &str) -> String {
    let mut hash: i32 = 0;
    for ch in s.chars().take(1000) {
        hash = ((hash << 5).wrapping_sub(hash)).wrapping_add(ch as i32);
    }
    hash.to_string()
}

#[test]
fn fingerprint_deterministic() {
    let pixels: Vec<u8> = (0u8..=255).cycle().take(4 * 64).collect();
    let a = calculate_image_hash(pixels.clone(), 8, 8).unwrap();
    let b = calculate_image_hash(pixels, 8, 8).unwrap();
    assert_eq!(a, b);
}

#[test]
fn fingerprint_empty_input() {
    let r = calculate_image_hash(Vec::new(), 10, 10);
    assert!(matches!(r, Err(PipelineError::EmptyInput)));
}

#[test]
fn fingerprint_exact_value() {
    // One incomplete pixel: [10, 20, 30] at 1x1. The sample size is 0, the
    // stride falls back to 1 pixel, and the only visited offset is 0, whose
    // R, G, B bytes are all in bounds: the joined string is "1-1-102030".
    let r = calculate_image_hash(vec![10, 20, 30], 1, 1).unwrap();
    assert_eq!(r, reference_reduce("1-1-102030"));
    assert_eq!(r, "1459715826");
}

#[test]
fn fingerprint_exact_value_full_pixel() {
    // A single 1x1 pixel: only offset 0 is visited; the joined string is
    // "1-1-25512864".
    let r = calculate_image_hash(vec![255, 128, 64, 0], 1, 1).unwrap();
    assert_eq!(r, reference_reduce("1-1-25512864"));
}

#[test]
fn fingerprint_matches_internal() {
    let pixels: Vec<u8> = vec![1, 2, 3, 4, 5, 6, 7, 8, 9, 10, 11, 12, 13, 14, 15, 16];
    let from_vec = calculate_image_hash(pixels.clone(), 2, 2).unwrap();
    let from_slice = calculate_image_hash_internal(&pixels, 2, 2).unwrap();
    assert_eq!(from_vec, from_slice);
}

#[test]
fn fingerprint_dimension_sensitivity() {
    // The same 16 bytes read as 2x2 and as 4x1: the dimensions seed the
    // token list, so the fingerprints differ.
    let pixels: Vec<u8> = vec![9, 8, 7, 6, 5, 4, 3, 2, 1, 0, 11, 22, 33, 44, 55, 66];
    let a = calculate_image_hash(pixels.clone(), 2, 2).unwrap();
    let b = calculate_image_hash(pixels, 4, 1).unwrap();
    assert_ne!(a, b);
}

#[test]
fn fingerprint_sensitivity_at_sampled_offset() {
    // 2x2 image: the stride is one pixel, so every pixel is sampled; a large
    // change in one sampled R channel changes the fingerprint.
    let pixels: Vec<u8> = vec![10, 10, 10, 255, 20, 20, 20, 255, 30, 30, 30, 255, 40, 40, 40, 255];
    let mut altered = pixels.clone();
    altered[0] = 200;
    let a = calculate_image_hash(pixels, 2, 2).unwrap();
    let b = calculate_image_hash(altered, 2, 2).unwrap();
    assert_ne!(a, b);
}

#[test]
fn fingerprint_alpha_not_sampled() {
    // Alpha is deliberately excluded from the tokens: changing only alpha
    // bytes leaves the fingerprint unchanged.
    let pixels: Vec<u8> = vec![10, 10, 10, 0, 20, 20, 20, 0, 30, 30, 30, 0, 40, 40, 40, 0];
    let mut altered = pixels.clone();
    altered[3] = 255;
    altered[7] = 255;
    let a = calculate_image_hash(pixels, 2, 2).unwrap();
    let b = calculate_image_hash(altered, 2, 2).unwrap();
    assert_eq!(a, b);
}

#[test]
fn fingerprint_stride_skips_unsampled_pixels() {
    // 50x40 = 2000 pixels (8000 bytes): the sample count caps at 1000, so
    // the stride is 8000 / (1000 * 4) = 2 pixels and only even pixel indices
    // are visited. A change in an unsampled pixel is invisible; a change at
    // a sampled offset is picked up.
    let pixels: Vec<u8> = (0u8..=255).cycle().take(8000).collect();
    let base = calculate_image_hash(pixels.clone(), 50, 40).unwrap();

    let mut unsampled = pixels.clone();
    unsampled[4] = unsampled[4].wrapping_add(100);  // pixel 1, not visited
    let same = calculate_image_hash(unsampled, 50, 40).unwrap();
    assert_eq!(base, same);

    let mut sampled = pixels;
    sampled[8] = sampled[8].wrapping_add(100);  // pixel 2, visited
    let changed = calculate_image_hash(sampled, 50, 40).unwrap();
    assert_ne!(base, changed);
}

#[test]
fn error_messages() {
    assert_eq!(PipelineError::EmptyInput.message(), "Empty RGBA data");
    assert_eq!(
        PipelineError::BufferSizeMismatch.message(),
        "RGBA buffer length does not match width*height*4"
    );
    assert_eq!(
        PipelineError::EncodeFailure("boom".to_string()).message(),
        "PNG encoding failed: boom"
    );
    assert_eq!(PipelineError::LockFailure.message(), "Failed to lock hash mutex");
}

#[test]
fn config_defaults() {
    assert_eq!(default_max_text_history(), 500);
    assert_eq!(default_max_image_history(), 30);
    assert!(default_auto_start());
    let c = AppConfig::default();
    assert_eq!(c.max_text_history, 500);
    assert_eq!(c.max_image_history, 30);
    assert!(c.auto_start);
}
