use rustcraft::lod::LodLevel;

#[test]
fn test_block_scale() {
    assert_eq!(LodLevel::Lod0.block_scale(), 1);
    assert_eq!(LodLevel::Lod1.block_scale(), 2);
}

#[test]
fn test_from_distance_squared() {
    let lod0_threshold_sq = 64;

    assert_eq!(LodLevel::from_distance_squared(0, lod0_threshold_sq), LodLevel::Lod0);
    assert_eq!(LodLevel::from_distance_squared(64, lod0_threshold_sq), LodLevel::Lod0);

    assert_eq!(LodLevel::from_distance_squared(65, lod0_threshold_sq), LodLevel::Lod1);
    assert_eq!(LodLevel::from_distance_squared(100, lod0_threshold_sq), LodLevel::Lod1);
}

#[test]
fn lod_default_is_full_detail() {
    assert_eq!(LodLevel::default(), LodLevel::Lod0);
}

#[test]
fn lod_does_not_improve_with_distance() {
    let threshold = 25;
    let mut seen_reduced = false;
    for d in 0..100 {
        let lod = LodLevel::from_distance_squared(d, threshold);
        if seen_reduced {
            assert_eq!(lod, LodLevel::Lod1);
        }
        if lod == LodLevel::Lod1 {
            seen_reduced = true;
        }
    }
    assert!(seen_reduced);
}
