use nanai_lite_rammap::memory::format_bytes;

fn float_reference(bytes: u64) -> String {
    const KB: f64 = 1024.0;
    const MB: f64 = KB * 1024.0;
    const GB: f64 = MB * 1024.0;
    let b = bytes as f64;
    if b >= GB {
        format!("{:.2} GB", b / GB)
    } else if b >= MB {
        format!("{:.1} MB", b / MB)
    } else if b >= KB {
        format!("{:.0} KB", b / KB)
    } else {
        format!("{} B", bytes)
    }
}

#[test]
fn bytes_below_one_kib_are_exact() {
    assert_eq!(format_bytes(0), "0 B");
    assert_eq!(format_bytes(1), "1 B");
    assert_eq!(format_bytes(512), "512 B");
    assert_eq!(format_bytes(1023), "1023 B");
}

#[test]
fn kilobytes_round_to_nearest_even() {
    assert_eq!(format_bytes(1024), "1 KB");
    assert_eq!(format_bytes(1536), "2 KB");
    assert_eq!(format_bytes(2560), "2 KB");
    assert_eq!(format_bytes(3584), "4 KB");
    assert_eq!(format_bytes(1048575), "1024 KB");
}

#[test]
fn megabytes_have_one_decimal() {
    assert_eq!(format_bytes(1048576), "1.0 MB");
    assert_eq!(format_bytes(1572864), "1.5 MB");
    assert_eq!(format_bytes(1024 * 1024 * 1023 + 1024 * 1000), "1024.0 MB");
    assert_eq!(format_bytes(1073741823), "1024.0 MB");
}

#[test]
fn gigabytes_have_two_decimals() {
    assert_eq!(format_bytes(1073741824), "1.00 GB");
    assert_eq!(format_bytes(1073741824 + 134217728), "1.12 GB");
    assert_eq!(format_bytes(3 * 1073741824 + 402653184), "3.38 GB");
    assert_eq!(format_bytes(17179869184), "16.00 GB");
}

#[test]
fn largest_counts_round_like_f64() {
    assert_eq!(format_bytes(u64::MAX), "17179869184.00 GB");
    assert_eq!(format_bytes(u64::MAX), float_reference(u64::MAX));
    let big = (1u64 << 53) + 1;
    assert_eq!(format_bytes(big), float_reference(big));
}

#[test]
fn matches_float_formatting_on_many_counts() {
    let mut values: Vec<u64> = Vec::new();
    for i in 0..5000u64 {
        values.push(i);
        values.push(i * 512);
        values.push(i * 52429);
        values.push(i * 1024 * 1024 / 20);
        values.push(i * 107374182 + 12345);
        values.push(1073741824u64.wrapping_mul(i) / 200);
        values.push(i.wrapping_mul(0x9E37_79B9_7F4A_7C15));
        values.push(u64::MAX - i * 1021);
        values.push((1u64 << 53).wrapping_add(i.wrapping_mul(0x1234_5678_9ABC)));
    }
    for shift in 0..64 {
        let p = 1u64 << shift;
        values.push(p);
        values.push(p - 1);
        values.push(p + 1);
        values.push(p + p / 2);
    }
    for v in values {
        assert_eq!(format_bytes(v), float_reference(v), "bytes = {}", v);
    }
}
