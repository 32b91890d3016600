use windows_memory_monitor::gpu::{adapter_name, gpu_memory_lines, is_hardware_adapter, memory_line, nul_position};
use windows_memory_monitor::segments::SegmentUsage;

const GIB: u64 = 1 << 30;

#[test]
fn hardware_filter() {
    assert!(is_hardware_adapter(true, Some(1)));
    assert!(!is_hardware_adapter(true, Some(0)));
    assert!(!is_hardware_adapter(true, None));
    assert!(!is_hardware_adapter(false, Some(1)));
}

#[test]
fn adapter_names() {
    let mut raw = vec![0u8; 256];
    raw[..15].copy_from_slice(b"NVIDIA GeForce\0");
    assert_eq!(nul_position(&raw), 14);
    assert_eq!(adapter_name(0, Some(&raw)), "NVIDIA GeForce");
    assert_eq!(adapter_name(3, None), "GPU 3");
    assert_eq!(adapter_name(12, None), "GPU 12");
    let full = vec![b'A'; 4];
    assert_eq!(nul_position(&full), 4);
    assert_eq!(adapter_name(1, Some(&full)), "AAAA");
    let invalid = vec![0xffu8, b'x', 0];
    assert_eq!(adapter_name(1, Some(&invalid)), "\u{fffd}x");
}

#[test]
fn memory_lines() {
    assert_eq!(
        memory_line(Some(8 * GIB), Some((GIB + GIB / 2, 2 * GIB))),
        "总量 8.0 GB · 常驻 1.5 GB · 提交 2.0 GB"
    );
    assert_eq!(memory_line(Some(8 * GIB), None), "总量 8.0 GB · 常驻 -- · 提交 --");
    assert_eq!(memory_line(Some(0), Some((1, 1))), "N/A");
    assert_eq!(memory_line(None, Some((1, 1))), "N/A");
    assert_eq!(memory_line(Some(GIB), Some((0, 0))), "总量 1.0 GB · 常驻 0.0 GB · 提交 0.0 GB");
}

#[test]
fn gpu_lines_and_gauge_basis() {
    let seg = SegmentUsage { dedicated_committed: 2 * GIB, dedicated_resident: GIB, shared_committed: GIB / 2, shared_resident: GIB / 4 };
    let l = gpu_memory_lines(Some(4 * GIB), Some(16 * GIB), Some(seg));
    assert_eq!(l.dedicated_line, "总量 4.0 GB · 常驻 1.0 GB · 提交 2.0 GB");
    assert_eq!(l.shared_line, "总量 16.0 GB · 常驻 0.2 GB · 提交 0.5 GB");
    assert_eq!(l.usage_basis, Some((GIB, 4 * GIB)));
    let l = gpu_memory_lines(Some(4 * GIB), None, None);
    assert_eq!(l.shared_line, "N/A");
    assert_eq!(l.usage_basis, None);
    let l = gpu_memory_lines(Some(0), Some(GIB), Some(seg));
    assert_eq!(l.dedicated_line, "N/A");
    assert_eq!(l.usage_basis, None);
}

#[test]
fn ascii_description_gives_its_text() {
    assert_eq!(adapter_name(0, Some(&vec![71u8, 0])), "G");
    assert_eq!(adapter_name(0, Some(&vec![0u8, 71])), "");
}
