use windows_memory_monitor::format::{format_gb, format_gb_tenths, push_decimal, u64_to_f64_exact};

const GB: f64 = 1024.0 * 1024.0 * 1024.0;

fn float_text(bytes: u64) -> String {
    format!("{:.2} GB", bytes as f64 / GB)
}

fn float_text_tenths(bytes: u64) -> String {
    if bytes == 0 {
        "0.0 GB".to_string()
    } else {
        format!("{:.1} GB", bytes as f64 / GB)
    }
}

fn sample_values() -> Vec<u64> {
    let mut v: Vec<u64> = vec![
        0,
        1,
        1023,
        1 << 20,
        1 << 27,
        3 << 27,
        5 << 27,
        (1 << 27) - 1,
        (1 << 27) + 1,
        1 << 30,
        (1 << 30) + (1 << 29),
        17_179_869_184,
        34_359_738_368 - 1,
        (1 << 53) - 1,
        1 << 53,
        (1 << 53) + 1,
        (1 << 53) + 3,
        (1 << 54) + 2,
        (1 << 54) + 6,
        u64::MAX,
        u64::MAX - 1024,
        u64::MAX / 3,
    ];
    let mut x: u64 = 0x9E37_79B9_7F4A_7C15;
    for _ in 0..2000 {
        x = x.wrapping_mul(6364136223846793005).wrapping_add(1442695040888963407);
        v.push(x >> (x % 64));
    }
    for k in 0..200u64 {
        v.push(k << 27);
        v.push((k << 26) * 3);
        v.push(k * 107_374_182);
    }
    v
}

#[test]
fn format_gb_two_decimals() {
    assert_eq!(format_gb(0), "0.00 GB");
    assert_eq!(format_gb(1 << 30), "1.00 GB");
    assert_eq!(format_gb(3 << 29), "1.50 GB");
    assert_eq!(format_gb(17_179_869_184), "16.00 GB");
    assert_eq!(format_gb(8_589_934_592 + 4_294_967_296), "12.00 GB");
    assert_eq!(format_gb(u64::MAX), "17179869184.00 GB");
}

#[test]
fn format_gb_ties_round_to_even() {
    // 0.125 GB and 0.375 GB lie exactly between two hundredths.
    assert_eq!(format_gb(1 << 27), "0.12 GB");
    assert_eq!(format_gb(3 << 27), "0.38 GB");
    assert_eq!(format_gb(5 << 27), "0.62 GB");
}

#[test]
fn format_gb_matches_float_formatting() {
    for b in sample_values() {
        assert_eq!(format_gb(b), float_text(b), "bytes = {}", b);
    }
}

#[test]
fn format_gb_tenths_matches_float_formatting() {
    for b in sample_values() {
        assert_eq!(format_gb_tenths(b), float_text_tenths(b), "bytes = {}", b);
    }
}

#[test]
fn format_gb_tenths_values() {
    assert_eq!(format_gb_tenths(0), "0.0 GB");
    assert_eq!(format_gb_tenths(1 << 30), "1.0 GB");
    assert_eq!(format_gb_tenths(8 * (1 << 30)), "8.0 GB");
    assert_eq!(format_gb_tenths(3 << 29), "1.5 GB");
}

#[test]
fn whole_gigabytes_have_zero_decimals() {
    for k in [0u64, 1, 2, 7, 64, 1000, 8_388_608, 17_179_869_183] {
        assert_eq!(format_gb(k << 30), format!("{}.00 GB", k));
    }
}

#[test]
fn u64_to_f64_exact_matches_cast() {
    for b in sample_values() {
        assert_eq!(u64_to_f64_exact(b), (b as f64) as u128, "bytes = {}", b);
    }
    assert_eq!(u64_to_f64_exact(u64::MAX), 1u128 << 64);
    assert_eq!(u64_to_f64_exact((1 << 53) + 1), 1u128 << 53);
    assert_eq!(u64_to_f64_exact((1 << 53) + 3), (1u128 << 53) + 4);
}

#[test]
fn push_decimal_appends_digits() {
    let mut s = String::from("n=");
    push_decimal(&mut s, 0);
    assert_eq!(s, "n=0");
    let mut s = String::new();
    push_decimal(&mut s, 1234567890123456789);
    assert_eq!(s, "1234567890123456789");
    let mut s = String::new();
    push_decimal(&mut s, u128::MAX);
    assert_eq!(s, u128::MAX.to_string());
}

fn shown_number(text: &str) -> f64 {
    text.trim_end_matches(" GB").parse().unwrap()
}

#[test]
fn more_bytes_never_show_fewer_gigabytes() {
    let mut v = sample_values();
    v.sort();
    for w in v.windows(2) {
        assert!(shown_number(&format_gb(w[0])) <= shown_number(&format_gb(w[1])));
        assert!(shown_number(&format_gb_tenths(w[0])) <= shown_number(&format_gb_tenths(w[1])));
    }
}
