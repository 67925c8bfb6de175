use cargo_gui::duration::format_duration;

#[test]
fn format_duration_below_1000ms() {
    assert_eq!(format_duration(0), "0 ms");
    assert_eq!(format_duration(1), "1 ms");
    assert_eq!(format_duration(999), "999 ms");
}

#[test]
fn format_duration_at_boundary() {
    assert_eq!(format_duration(1000), "1.00 s");
    assert_eq!(format_duration(1500), "1.50 s");
    assert_eq!(format_duration(2345), "2.35 s");
    assert_eq!(format_duration(60000), "60.00 s");
    assert_eq!(format_duration(1999), "2.00 s");
    assert_eq!(format_duration(1994), "1.99 s");
}

#[test]
fn exact_ties_go_to_the_even_digit() {
    assert_eq!(format_duration(1125), "1.12 s");
    assert_eq!(format_duration(1375), "1.38 s");
    assert_eq!(format_duration(1625), "1.62 s");
    assert_eq!(format_duration(1875), "1.88 s");
}

#[test]
fn durations_read_as_doubles_do() {
    let mut samples: Vec<u64> = (1000..60_000).collect();
    for shift in 10..64 {
        for d in [0u64, 1, 2, 5, 15, 999] {
            samples.push((1u64 << shift).wrapping_add(d));
            samples.push((1u64 << shift).wrapping_sub(d));
        }
    }
    samples.push(u64::MAX);
    samples.push(9_007_199_254_740_993);
    for ms in samples {
        if ms >= 1000 {
            assert_eq!(format_duration(ms), format!("{:.2} s", ms as f64 / 1000.0), "{ms}");
        }
    }
}
