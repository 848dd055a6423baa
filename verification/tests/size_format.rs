use notecypher::size_format::format_file_size;

fn std_rendering(bytes: u64) -> String {
    if bytes < 1024 {
        format!("{} B", bytes)
    } else if bytes < 1024 * 1024 {
        format!("{:.1} KB", bytes as f64 / 1024.0)
    } else {
        format!("{:.1} MB", bytes as f64 / (1024.0 * 1024.0))
    }
}

#[test]
fn file_size_small_values() {
    assert_eq!(format_file_size(0), "0 B");
    assert_eq!(format_file_size(1), "1 B");
    assert_eq!(format_file_size(1023), "1023 B");
}

#[test]
fn file_size_kib_values() {
    assert_eq!(format_file_size(1024), "1.0 KB");
    assert_eq!(format_file_size(1536), "1.5 KB");
    assert_eq!(format_file_size(1024 * 1024 - 1), "1024.0 KB");
}

#[test]
fn file_size_mib_values() {
    assert_eq!(format_file_size(1024 * 1024), "1.0 MB");
    assert_eq!(format_file_size(5 * 1024 * 1024 + 512 * 1024), "5.5 MB");
}

#[test]
fn file_size_ties_round_to_even() {
    // 1.25 KiB and 1.75 KiB are exact ties at one decimal.
    assert_eq!(format_file_size(1280), std_rendering(1280));
    assert_eq!(format_file_size(1792), std_rendering(1792));
    assert_eq!(format_file_size(1280), "1.2 KB");
    assert_eq!(format_file_size(1792), "1.8 KB");
}

#[test]
fn file_size_matches_float_rendering() {
    let mut b: u64 = 0;
    while b < 3_000_000 {
        assert_eq!(format_file_size(b), std_rendering(b), "bytes = {}", b);
        b += 1;
    }
    let samples: [u64; 10] = [
        u64::MAX,
        u64::MAX - 1,
        (1u64 << 53) + 1,
        (1u64 << 53) + 3,
        (1u64 << 60) + 12345,
        1u64 << 63,
        999_999_999_999,
        123_456_789_012_345_678,
        (1u64 << 54) + 2,
        (1u64 << 54) + 6,
    ];
    for &s in samples.iter() {
        assert_eq!(format_file_size(s), std_rendering(s), "bytes = {}", s);
    }
}
