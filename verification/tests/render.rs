use durhist::render::{print_histo, u64_to_string};

fn standard_thresholds() -> Vec<u64> {
    vec![300, 400, 500, 600, 700, 800, 1000]
}

#[test]
fn test_print_histo() {
    let histo = vec![0, 100, 0, 200, 0, 300, 0];
    let thresholds = standard_thresholds();

    let v = print_histo(&histo, &thresholds);

    assert_eq!(
        v,
        vec![
            "300: ",
            "400: ******",
            "500: ",
            "600: *************",
            "700: ",
            "800: ********************",
            "1000: "
        ]
    )
}

#[test]
fn all_zero_counts_render_empty_bars() {
    let histo = vec![0, 0, 0, 0, 0, 0, 0];
    let thresholds = standard_thresholds();

    let v = print_histo(&histo, &thresholds);

    for (i, line) in v.iter().enumerate() {
        assert_eq!(*line, format!("{}: ", thresholds[i]));
    }
}

#[test]
fn largest_bucket_fills_the_whole_width() {
    let histo = vec![7, 0, 0, 0, 0, 0, 0];
    let thresholds = standard_thresholds();

    let v = print_histo(&histo, &thresholds);

    assert_eq!(v[0], format!("300: {}", "*".repeat(20)));
    assert_eq!(v[1], "400: ");
}

#[test]
fn decimal_numerals_are_exact() {
    assert_eq!(u64_to_string(0), "0");
    assert_eq!(u64_to_string(7), "7");
    assert_eq!(u64_to_string(1000), "1000");
    assert_eq!(u64_to_string(18446744073709551615), "18446744073709551615");
}
