use rc::util::{format_bytes, format_size};

#[test]
fn test_format_bytes() {
    assert_eq!(format_bytes(0), "0B");
    assert_eq!(format_bytes(512), "512B");
    assert_eq!(format_bytes(1024), "1.0KB");
    assert_eq!(format_bytes(1536), "1.5KB");
    assert_eq!(format_bytes(1024 * 1024), "1.0MB");
    assert_eq!(format_bytes(1024 * 1024 * 1024), "1.0GB");
}

#[test]
fn test_format_size() {
    assert_eq!(format_size(0), "0");
    assert_eq!(format_size(512), "512");
    assert_eq!(format_size(1024), "1.0K");
    assert_eq!(format_size(1024 * 1024), "1.0M");
    assert_eq!(format_size(1024 * 1024 * 1024), "1.0G");
}

#[test]
fn format_matches_float_rendering() {
    let samples: [u64; 12] = [
        1023,
        1025,
        1280,
        1331,
        1843,
        1048575,
        5 * 1024 * 1024 + 512 * 1024,
        1u64 << 40,
        (1u64 << 40) * 3 / 2,
        u64::MAX,
        (1u64 << 53) + 1,
        123_456_789_012_345,
    ];
    for b in samples {
        let (div, suf) = if b >= 1 << 40 {
            ((1u64 << 40) as f64, "TB")
        } else if b >= 1 << 30 {
            ((1u64 << 30) as f64, "GB")
        } else if b >= 1 << 20 {
            ((1u64 << 20) as f64, "MB")
        } else if b >= 1 << 10 {
            (1024.0, "KB")
        } else {
            assert_eq!(format_bytes(b), format!("{}B", b));
            continue;
        };
        assert_eq!(format_bytes(b), format!("{:.1}{}", b as f64 / div, suf));
    }
}

#[test]
fn format_ties_round_to_even() {
    assert_eq!(format_bytes(1280), "1.2KB");
    assert_eq!(format_size(1024 + 768), "1.8K");
    assert_eq!(format_bytes(1048575), "1024.0KB");
    assert_eq!(format_size(1u64 << 40), "1.0T");
}
