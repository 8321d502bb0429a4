use cc_panes::model_capacity_detector::{
    ModelCapacityErrorDetector, CARRY_BYTES, MODEL_CAPACITY_ERROR,
};

#[test]
fn detector_matches_only_the_exact_message() {
    let mut detector = ModelCapacityErrorDetector::default();

    assert!(detector.observe(MODEL_CAPACITY_ERROR));

    let mut near_miss = ModelCapacityErrorDetector::default();
    assert!(!near_miss.observe("Selected model is at capacity. Please try another model."));
}

#[test]
fn detector_matches_when_message_crosses_read_chunks() {
    let mut detector = ModelCapacityErrorDetector::default();

    assert!(!detector.observe("Selected model is at "));
    assert!(detector.observe("capacity. Please try a different model."));
}

#[test]
fn message_is_one_byte_longer_than_what_is_kept() {
    assert_eq!(MODEL_CAPACITY_ERROR.len(), CARRY_BYTES + 1);
    assert_eq!(
        MODEL_CAPACITY_ERROR,
        "Selected model is at capacity. Please try a different model."
    );
}

#[test]
fn empty_output_is_never_reported_and_changes_nothing() {
    let mut detector = ModelCapacityErrorDetector::default();
    assert!(!detector.observe(""));
    assert!(!detector.observe("Selected model is at capacity. "));
    assert!(!detector.observe(""));
    assert!(detector.observe("Please try a different model."));
    assert!(!detector.observe(""));
}

#[test]
fn every_cut_of_the_message_in_two_is_reported_once() {
    for cut in 1..MODEL_CAPACITY_ERROR.len() {
        let mut detector = ModelCapacityErrorDetector::default();
        assert!(!detector.observe("\u{1b}[31m错误 "));
        assert!(!detector.observe(&MODEL_CAPACITY_ERROR[..cut]));
        assert!(detector.observe(&MODEL_CAPACITY_ERROR[cut..]));
        assert!(!detector.observe(" 再试一次"));
    }
}

#[test]
fn message_is_reported_byte_by_byte_at_its_last_byte() {
    let mut detector = ModelCapacityErrorDetector::default();
    let output = format!("过载: {} {}", MODEL_CAPACITY_ERROR, MODEL_CAPACITY_ERROR);
    let mut reported = 0;
    let mut seen = String::new();
    for c in output.chars() {
        seen.push(c);
        let matched = detector.observe(&c.to_string());
        assert_eq!(matched, seen.ends_with(MODEL_CAPACITY_ERROR));
        if matched {
            reported += 1;
        }
    }
    assert_eq!(reported, 2);
}

#[test]
fn message_inside_one_chunk_is_reported_among_wide_characters() {
    let mut detector = ModelCapacityErrorDetector::default();
    let padding = "宽".repeat(40);
    assert!(!detector.observe(&padding));
    assert!(detector.observe(&format!("{}{}{}", padding, MODEL_CAPACITY_ERROR, padding)));
    assert!(!detector.observe(&padding));
}

#[test]
fn interrupted_message_is_not_reported() {
    let mut detector = ModelCapacityErrorDetector::default();
    assert!(!detector.observe("Selected model is at capacity. "));
    assert!(!detector.observe("\r\n"));
    assert!(!detector.observe("Please try a different model."));
}
