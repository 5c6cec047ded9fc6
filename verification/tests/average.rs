use shader_jockey::average::RunningAverage;

#[test]
fn fresh_window_is_zero() {
    let avg = RunningAverage::new(8);
    assert_eq!(avg.sum(), 0);
    assert_eq!(avg.len(), 8);
}

#[test]
fn mean_of_full_window() {
    // Pushing [1, 2, 3, 4] into a capacity-4 window: the mean is
    // 10 / 4 = 2.5, exact as the fraction sum / len.
    let mut avg = RunningAverage::new(4);
    avg.push(1);
    avg.push(2);
    avg.push(3);
    avg.push(4);
    assert_eq!(avg.sum(), 10);
    assert_eq!(avg.len(), 4);
    assert_eq!(avg.sum() * 2, 5 * avg.len() as u64);
}

#[test]
fn window_retains_most_recent() {
    // Pushing six values into a capacity-4 window keeps only the last
    // four: 3 + 4 + 5 + 6.
    let mut avg = RunningAverage::new(4);
    for v in 1..=6 {
        avg.push(v);
    }
    assert_eq!(avg.sum(), 18);
    assert_eq!(avg.len(), 4);
}

#[test]
fn capacity_one_tracks_last() {
    let mut avg = RunningAverage::new(1);
    avg.push(7);
    avg.push(9);
    assert_eq!(avg.sum(), 9);
    assert_eq!(avg.len(), 1);
}
