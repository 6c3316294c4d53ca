use clip_pipeline::dedup::DedupGate;
use clip_pipeline::errors::PipelineError;
use clip_pipeline::normalize::RawImage;

fn red_2x2() -> RawImage {
    RawImage {
        pixels: vec![
            255, 0, 0, 255, 255, 0, 0, 255, 255, 0, 0, 255, 255, 0, 0, 255,
        ],
        width: 2,
        height: 2,
    }
}

#[test]
fn dedup_state_machine_scenario() {
    let mut gate = DedupGate::new();
    // Invocation 1: a new 2x2 opaque-red image is offered.
    let r1 = gate.detect_and_normalize(Some(red_2x2())).unwrap();
    let encoded = r1.expect("first sighting must produce an encoded image");
    assert_eq!(encoded.width, 2);
    assert_eq!(encoded.height, 2);
    assert_eq!(encoded.original_size, 16);
    assert!(encoded.base64_data.starts_with("data:image/png;base64,"));
    // Invocation 2: the same image is a duplicate.
    let r2 = gate.detect_and_normalize(Some(red_2x2())).unwrap();
    assert!(r2.is_none());
    // Invocation 3: the clipboard reports no image; the state resets.
    let r3 = gate.detect_and_normalize(None).unwrap();
    assert!(r3.is_none());
    // Invocation 4: the same image is offered again and is new again.
    let r4 = gate.detect_and_normalize(Some(red_2x2())).unwrap();
    assert!(r4.is_some());
}

#[test]
fn dedup_unusable_snapshot_keeps_state() {
    let mut gate = DedupGate::new();
    let first = gate.detect_and_normalize(Some(red_2x2())).unwrap();
    assert!(first.is_some());
    // A zero-dimension read is transient: no result, state untouched.
    let unusable = RawImage { pixels: vec![1, 2, 3, 4], width: 0, height: 1 };
    let r = gate.detect_and_normalize(Some(unusable)).unwrap();
    assert!(r.is_none());
    // An empty-buffer read as well.
    let empty = RawImage { pixels: Vec::new(), width: 2, height: 2 };
    let r = gate.detect_and_normalize(Some(empty)).unwrap();
    assert!(r.is_none());
    // The red image is still tracked, so it is still a duplicate.
    let again = gate.detect_and_normalize(Some(red_2x2())).unwrap();
    assert!(again.is_none());
}

#[test]
fn dedup_state_advances_even_on_failure() {
    let mut gate = DedupGate::new();
    // An inconsistent buffer: fingerprinted, tracked, then rejected by the
    // normalizer. The fingerprint state has already advanced.
    let bad = RawImage { pixels: vec![1, 2, 3], width: 2, height: 2 };
    let r = gate.detect_and_normalize(Some(bad));
    assert!(matches!(r, Err(PipelineError::BufferSizeMismatch)));
    // The identical image is now a duplicate, not re-offered.
    let bad_again = RawImage { pixels: vec![1, 2, 3], width: 2, height: 2 };
    let r2 = gate.detect_and_normalize(Some(bad_again)).unwrap();
    assert!(r2.is_none());
}

#[test]
fn dedup_different_images_both_offered() {
    let mut gate = DedupGate::new();
    let r1 = gate.detect_and_normalize(Some(red_2x2())).unwrap();
    assert!(r1.is_some());
    let green = RawImage {
        pixels: vec![0, 255, 0, 255, 0, 255, 0, 255, 0, 255, 0, 255, 0, 255, 0, 255],
        width: 2,
        height: 2,
    };
    let r2 = gate.detect_and_normalize(Some(green)).unwrap();
    assert!(r2.is_some());
}

#[test]
fn check_and_update_tracks_latest() {
    let mut gate = DedupGate::new();
    assert!(gate.check_and_update("a".to_string()));
    assert!(!gate.check_and_update("a".to_string()));
    assert!(gate.check_and_update("b".to_string()));
    assert!(!gate.check_and_update("b".to_string()));
    gate.reset();
    assert!(gate.check_and_update("b".to_string()));
}
