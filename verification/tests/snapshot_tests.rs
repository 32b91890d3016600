use windows_memory_monitor::snapshot::{commit_card, page_file_card, pair_gb, physical_card, process_card, saturating_mul};

const GIB: u64 = 1 << 30;

#[test]
fn physical_card_values() {
    let c = physical_card(16 * GIB, 4 * GIB);
    assert_eq!(c.used, 12 * GIB);
    assert_eq!(c.used + c.avail, c.total);
    assert_eq!(c.used_text, "12.00 GB");
    assert_eq!(c.total_text, "16.00 GB");
    assert_eq!(c.avail_text, "4.00 GB");
}

#[test]
fn physical_card_more_available_than_total() {
    let c = physical_card(GIB, 2 * GIB);
    assert_eq!(c.used, 0);
    assert_eq!(c.used_text, "0.00 GB");
}

#[test]
fn commit_card_values() {
    let c = commit_card(1_048_576, 2_097_152, 262_144, 4096);
    assert_eq!(c.commit_total, 4 * GIB);
    assert_eq!(c.commit_limit, 8 * GIB);
    assert_eq!(c.cache_bytes, GIB);
    assert_eq!(c.commit_text, "4.00 GB / 8.00 GB");
    assert_eq!(c.cache_text, "1.00 GB");
}

#[test]
fn commit_card_zero_page_size_and_saturation() {
    let c = commit_card(5, usize::MAX, 0, 0);
    assert_eq!(c.commit_total, 5);
    assert_eq!(c.commit_limit, usize::MAX as u64);
    let c = commit_card(usize::MAX, 1, 1, 4096);
    assert_eq!(c.commit_total, u64::MAX);
    assert_eq!(saturating_mul(u64::MAX, 2), u64::MAX);
    assert_eq!(saturating_mul(3, 7), 21);
}

#[test]
fn page_file_card_text() {
    let c = page_file_card(8 * GIB, GIB / 2);
    assert_eq!(c.text, "0.50 GB / 8.00 GB");
}

#[test]
fn process_card_texts() {
    let c = process_card(300 * 1024 * 1024, 0);
    assert_eq!(c.working_text, "0.29 GB");
    assert_eq!(c.private_text, "0.00 GB");
    assert_eq!(pair_gb(0, GIB), "0.00 GB / 1.00 GB");
}
