use clip_pipeline::errors::PipelineError;
use clip_pipeline::normalize::make_data_url;
use clip_pipeline::normalize::process_image_internal;

const PREFIX: &str = "data:image/png;base64,";

/// Decodes a transport payload back to raw RGBA bytes and dimensions, using
/// the real codecs.
fn decode_payload(data_url: &str) -> (Vec<u8>, u32, u32) {
    assert!(data_url.starts_with(PREFIX));
    let b64 = &data_url[PREFIX.len()..];
    let png = base64::Engine::decode(&base64::engine::general_purpose::STANDARD, b64).unwrap();
    let img = image::load_from_memory(&png).unwrap().to_rgba8();
    let (w, h) = img.dimensions();
    (img.into_raw(), w, h)
}

/// The alpha repair the normalizer applies, written out independently.
fn reference_repair(mut pixels: Vec<u8>) -> Vec<u8> {
    for i in (3..pixels.len()).step_by(4) {
        pixels[i] = 255;
    }
    pixels
}

#[test]
fn normalize_buffer_size_mismatch() {
    let r = process_image_internal(vec![0, 1, 2], 2, 2);
    assert!(matches!(r, Err(PipelineError::BufferSizeMismatch)));
}

#[test]
fn normalize_zero_dimensions_encode_failure() {
    // An empty buffer at 0x0 is size-consistent (0 == 0*0*4), but PNG
    // forbids zero dimensions: the encoder's failure surfaces as
    // `EncodeFailure` with the underlying cause text.
    let r = process_image_internal(Vec::new(), 0, 0);
    assert!(matches!(r, Err(PipelineError::EncodeFailure(_))));
}

#[test]
fn normalize_round_trip() {
    // 2x3 image with varied channels and deliberately zeroed alpha: decoding
    // the transport payload recovers exactly the alpha-repaired input.
    let pixels: Vec<u8> = vec![
        1, 2, 3, 0, 4, 5, 6, 0, 7, 8, 9, 0, 10, 11, 12, 0, 13, 14, 15, 0, 16, 17, 18, 0,
    ];
    let out = process_image_internal(pixels.clone(), 2, 3).unwrap();
    assert_eq!(out.width, 2);
    assert_eq!(out.height, 3);
    assert_eq!(out.original_width, 2);
    assert_eq!(out.original_height, 3);
    let (decoded, w, h) = decode_payload(&out.base64_data);
    assert_eq!((w, h), (2, 3));
    assert_eq!(decoded, reference_repair(pixels));
}

#[test]
fn normalize_alpha_repair_idempotent() {
    // Normalizing data that is already alpha-repaired reproduces it
    // byte-identically: running normalize twice changes nothing.
    let pixels: Vec<u8> = vec![
        100, 101, 102, 7, 103, 104, 105, 0, 106, 107, 108, 255, 109, 110, 111, 1,
    ];
    let once = process_image_internal(pixels, 2, 2).unwrap();
    let (decoded_once, _, _) = decode_payload(&once.base64_data);
    let twice = process_image_internal(decoded_once.clone(), 2, 2).unwrap();
    let (decoded_twice, _, _) = decode_payload(&twice.base64_data);
    assert_eq!(decoded_twice, decoded_once);
    for (i, b) in decoded_twice.iter().enumerate() {
        if i % 4 == 3 {
            assert_eq!(*b, 255);
        }
    }
}

#[test]
fn normalize_payload_is_self_describing() {
    let pixels: Vec<u8> = vec![0; 16];
    let out = process_image_internal(pixels, 2, 2).unwrap();
    assert!(out.base64_data.starts_with(PREFIX));
    // The payload differs from anything trivially derived from the input:
    // it must be valid base64 of a valid PNG, which `decode_payload` checks.
    let (decoded, _, _) = decode_payload(&out.base64_data);
    assert_eq!(decoded.len(), 16);
}

#[test]
fn make_data_url_prefixes() {
    let url = make_data_url("QUJD".to_string());
    assert_eq!(url, "data:image/png;base64,QUJD");
}
