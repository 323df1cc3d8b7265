use coretester::timing::{add_chunk, keep_timing};

#[test]
fn runs_until_the_duration_is_reached() {
    assert!(keep_timing(0, 1));
    assert!(keep_timing(999, 1000));
    assert!(!keep_timing(1000, 1000));
    assert!(!keep_timing(5, 0));
}

#[test]
fn units_saturate() {
    assert_eq!(add_chunk(10, 1536), 1546);
    assert_eq!(add_chunk(u64::MAX - 1, 5), u64::MAX);
    assert_eq!(add_chunk(u64::MAX, 0), u64::MAX);
}
