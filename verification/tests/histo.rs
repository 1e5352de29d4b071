use durhist::histogram::put_in_histo;

fn standard_thresholds() -> Vec<u64> {
    vec![300, 400, 500, 600, 700, 800, 1000]
}

#[test]
fn test_put_in_histo() {
    let mut histo = vec![0, 0, 0, 0, 0, 0, 0];
    let thresholds = standard_thresholds();

    put_in_histo(&mut histo, &thresholds, 399);

    assert_eq!(histo, [0, 1, 0, 0, 0, 0, 0])
}

#[test]
fn boundary_value_enters_the_next_bucket() {
    let mut histo = vec![0, 0, 0, 0, 0, 0, 0];
    let thresholds = standard_thresholds();

    // 400 is not strictly below 400: the first strictly greater
    // threshold is 500, at index 2.
    put_in_histo(&mut histo, &thresholds, 400);

    assert_eq!(histo, [0, 0, 1, 0, 0, 0, 0])
}

#[test]
fn value_above_every_threshold_is_discarded() {
    let mut histo = vec![3, 1, 4, 1, 5, 9, 2];
    let thresholds = standard_thresholds();
    let total_before: u64 = histo.iter().sum();

    put_in_histo(&mut histo, &thresholds, 1500);

    let total_after: u64 = histo.iter().sum();
    assert_eq!(histo, [3, 1, 4, 1, 5, 9, 2]);
    assert_eq!(total_before, total_after);
}

#[test]
fn value_at_the_top_threshold_is_discarded() {
    let mut histo = vec![0, 0, 0, 0, 0, 0, 0];
    let thresholds = standard_thresholds();

    put_in_histo(&mut histo, &thresholds, 1000);

    assert_eq!(histo, [0, 0, 0, 0, 0, 0, 0])
}

#[test]
fn negative_value_enters_the_first_bucket() {
    let mut histo = vec![0, 0, 0, 0, 0, 0, 0];
    let thresholds = standard_thresholds();

    put_in_histo(&mut histo, &thresholds, -7);

    assert_eq!(histo, [1, 0, 0, 0, 0, 0, 0])
}
