use price_oracle::normalize;

#[test]
fn normalize_snaps_down_to_the_grid() {
    assert_eq!(normalize(1_000_000_000, 300_000), 999_900_000);
    assert_eq!(normalize(999_999_999, 300_000), 999_900_000);
    assert_eq!(normalize(999_900_000, 300_000), 999_900_000);
    assert_eq!(normalize(999_899_999, 300_000), 999_600_000);
}

#[test]
fn normalize_keeps_grid_points() {
    assert_eq!(normalize(0, 300_000), 0);
    assert_eq!(normalize(300_000, 300_000), 300_000);
    assert_eq!(normalize(600_000, 300_000), 600_000);
}

#[test]
fn normalize_below_one_width_is_zero() {
    assert_eq!(normalize(1, 300_000), 0);
    assert_eq!(normalize(299_999, 300_000), 0);
}

#[test]
fn normalize_with_width_one_is_identity() {
    assert_eq!(normalize(0, 1), 0);
    assert_eq!(normalize(12_345, 1), 12_345);
    assert_eq!(normalize(u64::MAX, 1), u64::MAX);
}

#[test]
fn normalize_at_the_top_of_the_range() {
    assert_eq!(normalize(u64::MAX, u64::MAX), u64::MAX);
    assert_eq!(normalize(u64::MAX - 1, u64::MAX), 0);
    assert_eq!(normalize(u64::MAX, 1 << 63), 1 << 63);
}

#[test]
fn normalize_result_is_a_multiple_within_one_width() {
    let widths = [1u64, 2, 7, 1000, 300_000, 86_400_000];
    let stamps = [0u64, 1, 999, 1000, 1001, 299_999, 1_700_000_000_123, u64::MAX];
    for width in widths {
        for stamp in stamps {
            let bucket = normalize(stamp, width);
            assert_eq!(bucket % width, 0);
            assert!(bucket <= stamp);
            assert!(stamp - bucket < width);
        }
    }
}
