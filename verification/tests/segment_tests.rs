use windows_memory_monitor::segments::{
    adapter_segment_usage, segment_queries_needed, segment_count_valid, segment_usage_from_samples, sum_segments, SegmentSample, SegmentUsage, MAX_SEGMENTS,
};

fn seg(aperture: u32, committed: u64, resident: u64) -> Option<SegmentSample> {
    Some(SegmentSample { aperture, bytes_committed: committed, bytes_resident: resident })
}

fn fields(u: SegmentUsage) -> (u64, u64, u64, u64) {
    (u.dedicated_committed, u.dedicated_resident, u.shared_committed, u.shared_resident)
}

#[test]
fn segment_count_bounds() {
    assert!(!segment_count_valid(0));
    assert!(segment_count_valid(1));
    assert!(segment_count_valid(MAX_SEGMENTS));
    assert!(!segment_count_valid(MAX_SEGMENTS + 1));
}

#[test]
fn segments_are_summed_by_kind() {
    let samples = vec![seg(0, 100, 80), seg(1, 10, 5), seg(0, 1, 2), None, seg(7, 3, 4)];
    let u = segment_usage_from_samples(5, &samples).unwrap();
    assert_eq!(fields(u), (101, 82, 13, 9));
}

#[test]
fn invalid_counts_give_none() {
    let samples = vec![seg(0, 1, 1)];
    assert!(segment_usage_from_samples(0, &samples).is_none());
    assert!(segment_usage_from_samples(65, &samples).is_none());
}

#[test]
fn failed_segment_queries_add_nothing() {
    let samples = vec![None, None];
    let u = segment_usage_from_samples(2, &samples).unwrap();
    assert_eq!(fields(u), (0, 0, 0, 0));
}

#[test]
fn totals_saturate() {
    let samples = vec![seg(0, u64::MAX, 1), seg(0, 5, 2), seg(2, u64::MAX - 1, 0), seg(2, 1, 0), seg(2, 1, 0)];
    assert_eq!(fields(sum_segments(&samples)), (u64::MAX, 3, u64::MAX, 0));
}

#[test]
fn add_segment_and_default() {
    let mut u = SegmentUsage::default();
    assert_eq!(fields(u), (0, 0, 0, 0));
    u.add_segment(SegmentSample { aperture: 0, bytes_committed: 4, bytes_resident: 3 });
    u.add_segment(SegmentSample { aperture: 1, bytes_committed: 2, bytes_resident: 1 });
    assert_eq!(fields(u), (4, 3, 2, 1));
}

#[test]
fn order_of_segments_does_not_matter() {
    let a = vec![seg(0, u64::MAX - 3, 0), seg(0, 10, 0), seg(1, 2, 2)];
    let b = vec![seg(1, 2, 2), seg(0, 10, 0), seg(0, u64::MAX - 3, 0)];
    assert_eq!(fields(sum_segments(&a)), fields(sum_segments(&b)));
}

#[test]
fn failed_adapter_query_gives_none() {
    assert_eq!(segment_queries_needed(-1, 4), 0);
    assert_eq!(segment_queries_needed(0, 0), 0);
    assert_eq!(segment_queries_needed(0, 65), 0);
    assert_eq!(segment_queries_needed(0, 4), 4);
    let samples = vec![seg(0, 5, 4), seg(1, 3, 2)];
    assert!(adapter_segment_usage(-1073741823, 2, &samples).is_none());
    assert!(adapter_segment_usage(0, 0, &samples).is_none());
    assert_eq!(fields(adapter_segment_usage(0, 2, &samples).unwrap()), (5, 4, 3, 2));
}
