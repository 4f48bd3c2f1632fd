use doggygallery::models::{format_bytes, DirectoryEntry, EntryType};

fn measured_in_doubles(bytes: u64) -> String {
    let units = ["B", "KB", "MB", "GB", "TB"];
    if bytes == 0 {
        return "0 B".to_string();
    }
    let bytes_f = bytes as f64;
    let i = (bytes_f.log10() / 1024_f64.log10()).floor() as usize;
    let i = i.min(units.len() - 1);
    let size = bytes_f / 1024_f64.powi(i as i32);
    format!("{:.2} {}", size, units[i])
}

#[test]
fn sizes_are_written_in_their_unit() {
    assert_eq!(format_bytes(0), "0 B");
    assert_eq!(format_bytes(1), "1.00 B");
    assert_eq!(format_bytes(1023), "1023.00 B");
    assert_eq!(format_bytes(1024), "1.00 KB");
    assert_eq!(format_bytes(1536), "1.50 KB");
    assert_eq!(format_bytes(1048576), "1.00 MB");
    assert_eq!(format_bytes(1073741824), "1.00 GB");
    assert_eq!(format_bytes(1099511627776), "1.00 TB");
    assert_eq!(format_bytes(123456789), "117.74 MB");
    assert_eq!(format_bytes(u64::MAX), "16777216.00 TB");
}

#[test]
fn sizes_round_to_the_nearest_hundredth() {
    // 1.125 KB is a tie: it goes to the even hundredth
    assert_eq!(format_bytes(1152), "1.12 KB");
    // 1.375 KB is a tie too
    assert_eq!(format_bytes(1408), "1.38 KB");
    assert_eq!(format_bytes(1029), "1.00 KB");
    assert_eq!(format_bytes(1030), "1.01 KB");
    assert_eq!(format_bytes(1048575), "1024.00 KB");
    assert_eq!(format_bytes(1099511627775), "1024.00 GB");
}

#[test]
fn entry_size_is_formatted() {
    let entry = DirectoryEntry {
        name: "a.mp3".to_string(),
        path: "a.mp3".to_string(),
        entry_type: EntryType::Audio,
        size: 5 * 1024 * 1024,
    };
    assert_eq!(entry.formatted_size(), "5.00 MB");
}

#[test]
fn sizes_agree_with_measuring_in_doubles() {
    let mut samples: Vec<u64> = vec![
        1, 2, 9, 10, 99, 100, 999, 1000, 1023, 1024, 1025, 1152, 1408, 2047, 2048, 10239, 10240,
        u64::MAX, u64::MAX - 1, u64::MAX / 2, u64::MAX / 3, 9007199254740991, 9007199254740992,
        9007199254740993, 9007199254740994, 9007199254740995, 18014398509481985, 18014398509481986,
        18014398509481987, 36028797018963969, 1 << 62, (1 << 62) + 1, (1 << 63) + 1024,
        (1 << 63) + 1023, (1 << 63) + 1025, (1 << 63) + 3072, u64::MAX - 1023, u64::MAX - 1024,
    ];
    for k in 1..7u32 {
        let unit = 1u128 << (10 * k);
        for d in [-3i128, -2, -1, 0, 1, 2, 3] {
            let v = unit as i128 + d;
            if v > 0 && v <= u64::MAX as i128 {
                samples.push(v as u64);
            }
        }
    }
    // a fixed pseudo-random walk over all magnitudes
    let mut x: u64 = 0x9E3779B97F4A7C15;
    for i in 0..20000u32 {
        x ^= x << 13;
        x ^= x >> 7;
        x ^= x << 17;
        samples.push(x >> (i % 64));
    }
    // ties at every unit: odd multiples of an eighth of a hundredth... and of 1/200
    for unit_shift in [10u32, 20, 30, 40] {
        for odd in [1u64, 3, 5, 7, 9, 25, 127, 1001] {
            let eighth = 1u64 << (unit_shift - 3);
            if let Some(v) = eighth.checked_mul(odd) {
                samples.push(v + (1u64 << unit_shift));
            }
        }
    }
    for bytes in samples {
        assert_eq!(format_bytes(bytes), measured_in_doubles(bytes), "{}", bytes);
    }
}
