use image_converter::quality::{normalize_quality, MAX_QUALITY, MIN_QUALITY};

#[test]
fn absent_quality_is_the_maximum() {
    assert_eq!(normalize_quality(None), 100);
}

#[test]
fn quality_below_the_range_becomes_one() {
    assert_eq!(normalize_quality(Some(0)), 1);
}

#[test]
fn quality_above_the_range_becomes_one_hundred() {
    assert_eq!(normalize_quality(Some(101)), 100);
    assert_eq!(normalize_quality(Some(200)), 100);
    assert_eq!(normalize_quality(Some(255)), 100);
}

#[test]
fn quality_in_range_is_kept() {
    assert_eq!(normalize_quality(Some(1)), 1);
    assert_eq!(normalize_quality(Some(50)), 50);
    assert_eq!(normalize_quality(Some(99)), 99);
    assert_eq!(normalize_quality(Some(100)), 100);
}

#[test]
fn quality_is_clamped_for_every_value() {
    let mut q: u8 = 0;
    loop {
        let expected = std::cmp::max(1, std::cmp::min(100, q));
        let got = normalize_quality(Some(q));
        assert_eq!(got, expected);
        assert!(MIN_QUALITY <= got && got <= MAX_QUALITY);
        if q == u8::MAX {
            break;
        }
        q += 1;
    }
}
