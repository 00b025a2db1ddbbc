use prexp::system::CpuTicks;
use prexp::tui::app::stats::summary_lines_for_width;
use prexp::tui::app::App;
use prexp::tui::format::{cpu_layout, format_memory, format_timestamp, nice_label, uptime_at};

/// Floating-point rendering of a byte count, used as an oracle for the
/// integer implementation in the library.
fn memory_by_float(bytes: u64) -> String {
    let kb = 1024.0f64;
    let mb = kb * 1024.0;
    let gb = mb * 1024.0;
    let b = bytes as f64;
    if b >= gb {
        format!("{:.1}G", b / gb)
    } else if b >= mb {
        format!("{:.1}M", b / mb)
    } else if b >= kb {
        format!("{:.0}K", b / kb)
    } else {
        format!("{}B", bytes)
    }
}

#[test]
fn memory_small_values_in_bytes() {
    assert_eq!(format_memory(0), "0B");
    assert_eq!(format_memory(1), "1B");
    assert_eq!(format_memory(1023), "1023B");
}

#[test]
fn memory_kilobytes_round_to_whole() {
    assert_eq!(format_memory(1024), "1K");
    assert_eq!(format_memory(1536), "2K");
    assert_eq!(format_memory(2560), "2K");
    assert_eq!(format_memory(3584), "4K");
    assert_eq!(format_memory(1024 * 1023), "1023K");
}

#[test]
fn memory_megabytes_and_gigabytes() {
    assert_eq!(format_memory(1024 * 1024), "1.0M");
    assert_eq!(format_memory(1536 * 1024), "1.5M");
    assert_eq!(format_memory(1024 * 1024 * 1024), "1.0G");
    assert_eq!(format_memory(5 * 1024 * 1024 * 1024 / 2), "2.5G");
}

#[test]
fn memory_matches_float_rendering_on_many_values() {
    let mut values: Vec<u64> = Vec::new();
    for shift in 0..64u32 {
        let p = 1u64 << shift;
        values.push(p);
        values.push(p - 1);
        values.push(p.wrapping_add(1));
        values.push(p + p / 2);
        values.push(p + p / 20);
        values.push(p + p / 20 * 3);
    }
    let mut x: u64 = 0x9e37_79b9_7f4a_7c15;
    for _ in 0..20000 {
        x ^= x << 13;
        x ^= x >> 7;
        x ^= x << 17;
        values.push(x >> (x % 64));
    }
    values.push(u64::MAX);
    for k in 0..4000u64 {
        values.push(k * 512);
        values.push(k * 1024 * 1024 / 20);
    }
    for v in values {
        assert_eq!(format_memory(v), memory_by_float(v), "bytes = {}", v);
    }
}

#[test]
fn timestamp_unknown_for_zero() {
    assert_eq!(format_timestamp(0), "unknown");
}

#[test]
fn timestamp_known_dates() {
    assert_eq!(format_timestamp(1), "1970-01-01 00:00:01");
    assert_eq!(format_timestamp(86399), "1970-01-01 23:59:59");
    assert_eq!(format_timestamp(951782400), "2000-02-29 00:00:00");
    assert_eq!(format_timestamp(1700000000), "2023-11-14 22:13:20");
    assert_eq!(format_timestamp(1709164800), "2024-02-29 00:00:00");
}

#[test]
fn timestamp_century_years_follow_the_gregorian_rule() {
    // 2100 is not a leap year: the day after 28 February is 1 March.
    assert_eq!(format_timestamp(4107456000), "2100-02-28 00:00:00");
    assert_eq!(format_timestamp(4107542400), "2100-03-01 00:00:00");
    // 2000 is: it has a 29 February.
    assert_eq!(format_timestamp(951868800), "2000-03-01 00:00:00");
}

#[test]
fn uptime_formats() {
    assert_eq!(uptime_at(0, 1000), "unknown");
    assert_eq!(uptime_at(100, 100), "0m");
    assert_eq!(uptime_at(100, 50), "0m");
    assert_eq!(uptime_at(1000, 1000 + 59), "0m");
    assert_eq!(uptime_at(1000, 1000 + 3600 + 120), "1h 2m");
    assert_eq!(uptime_at(1000, 1000 + 2 * 86400 + 3 * 3600 + 4 * 60), "2d 3h 4m");
    assert_eq!(uptime_at(1000, 1000 + 86400), "1d 0h 0m");
}

#[test]
fn nice_labels() {
    assert_eq!(nice_label(-20), "-20 CRIT");
    assert_eq!(nice_label(-11), "-11 CRIT");
    assert_eq!(nice_label(-10), "-10 HIGH");
    assert_eq!(nice_label(-1), "-1 HIGH");
    assert_eq!(nice_label(0), "0 NORM");
    assert_eq!(nice_label(1), "1 LOW");
    assert_eq!(nice_label(10), "10 LOW");
    assert_eq!(nice_label(11), "11 IDLE");
    assert_eq!(nice_label(20), "20 IDLE");
    assert_eq!(nice_label(21), "21 ???");
    assert_eq!(nice_label(-21), "-21 ???");
    assert_eq!(nice_label(i32::MIN), "-2147483648 ???");
}

#[test]
fn cpu_layouts() {
    assert_eq!(cpu_layout(0, 80), (1, 8, 1));
    assert_eq!(cpu_layout(1, 80), (1, 69, 1));
    assert_eq!(cpu_layout(4, 80), (1, 69, 4));
    assert_eq!(cpu_layout(8, 80), (2, 29, 4));
    assert_eq!(cpu_layout(6, 80), (2, 29, 3));
    assert_eq!(cpu_layout(16, 40), (4, 4, 4));
    assert_eq!(cpu_layout(5, 0), (2, 4, 3));
}

#[test]
fn summary_height_follows_cpu_rows() {
    let mut app = App::new(std::time::Duration::from_secs(1));
    assert_eq!(summary_lines_for_width(&app, 80), 3);
    let t = CpuTicks { user: 0, system: 0, idle: 0, nice: 0 };
    app.system_stats.cpu_usage = vec![t; 8];
    assert_eq!(summary_lines_for_width(&app, 80), 6);
    app.system_stats.cpu_usage = vec![t; 6];
    assert_eq!(summary_lines_for_width(&app, 80), 5);
    app.system_stats.cpu_usage = vec![t; 3];
    assert_eq!(summary_lines_for_width(&app, 80), 5);
}
