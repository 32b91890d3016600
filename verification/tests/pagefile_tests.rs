use windows_memory_monitor::pagefile::{page_file_bytes, page_files_fit_exec, sum_page_files, PageFileEntry, PageFileInfo};

fn entry(total_size: u64, total_in_use: u64) -> PageFileEntry {
    PageFileEntry { total_size, total_in_use }
}

#[test]
fn page_files_are_summed() {
    let entries = vec![entry(1000, 200), entry(500, 100)];
    assert_eq!(sum_page_files(&entries), PageFileInfo { total: 1500, used: 300, free: 1200 });
}

#[test]
fn bytes_scale_by_page_size() {
    let entries = vec![entry(1000, 200), entry(500, 100)];
    assert!(page_files_fit_exec(&entries, 4096));
    let b = page_file_bytes(&entries, 4096);
    assert_eq!(b, PageFileInfo { total: 1500 * 4096, used: 300 * 4096, free: 1200 * 4096 });
    assert_eq!(b.free + b.used, b.total);
}

#[test]
fn zero_page_size_counts_as_one() {
    let entries = vec![entry(10, 3)];
    assert_eq!(page_file_bytes(&entries, 0), PageFileInfo { total: 10, used: 3, free: 7 });
}

#[test]
fn overuse_gives_no_free_space() {
    let entries = vec![entry(10, 30)];
    assert_eq!(page_file_bytes(&entries, 1), PageFileInfo { total: 10, used: 30, free: 0 });
}

#[test]
fn no_page_files() {
    let entries: Vec<PageFileEntry> = Vec::new();
    assert_eq!(page_file_bytes(&entries, 4096), PageFileInfo { total: 0, used: 0, free: 0 });
}

#[test]
fn overflow_is_detected() {
    assert!(!page_files_fit_exec(&vec![entry(u64::MAX, 0), entry(1, 0)], 1));
    assert!(!page_files_fit_exec(&vec![entry(1 << 60, 0)], 4096));
    assert!(!page_files_fit_exec(&vec![entry(0, u64::MAX), entry(0, 1)], 1));
    assert!(page_files_fit_exec(&vec![entry(1 << 40, 1 << 40)], 4096));
}
