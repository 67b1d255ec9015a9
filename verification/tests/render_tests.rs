use log_file::render::trim_to_1000;

#[test]
fn trim_leaves_small_values_alone() {
    assert_eq!(trim_to_1000(0), 0);
    assert_eq!(trim_to_1000(500), 500);
    assert_eq!(trim_to_1000(999), 999);
}

#[test]
fn trim_boundary_at_exactly_1000_is_kept() {
    assert_eq!(trim_to_1000(1000), 1000);
}

#[test]
fn trim_divides_repeatedly() {
    assert_eq!(trim_to_1000(1001), 1);
    assert_eq!(trim_to_1000(12_345), 12);
    assert_eq!(trim_to_1000(999_999), 999);
    assert_eq!(trim_to_1000(1_234_567_890), 1);
}

#[test]
fn trim_can_stop_at_exactly_1000() {
    // 1_000_000 / 1000 == 1000, and the rule divides only while the value
    // exceeds 1000, so the division stops there.
    assert_eq!(trim_to_1000(1_000_000), 1000);
    assert_eq!(trim_to_1000(1_000_001), 1000);
}
