use node_stats::text::u64_to_string;
use node_stats::window::SlidingWindow;

const MS: u64 = 1_000_000;

#[test]
fn window_keeps_last_k_in_push_order() {
    let mut w = SlidingWindow::new(3);
    w.push(10 * MS);
    w.push(20 * MS);
    w.push(30 * MS);
    w.push(40 * MS);
    assert_eq!(w.len(), 3);
    assert_eq!(w.samples(), vec![20 * MS, 30 * MS, 40 * MS]);
}

#[test]
fn window_scenario_average_is_30ms() {
    let mut w = SlidingWindow::new(3);
    w.push(10 * MS);
    w.push(20 * MS);
    w.push(30 * MS);
    w.push(40 * MS);
    assert_eq!(w.average(), Some(30 * MS));
}

#[test]
fn window_len_never_exceeds_capacity() {
    let mut w = SlidingWindow::new(5);
    for i in 0..200u64 {
        w.push(i);
        assert!(w.len() <= 5);
    }
    assert_eq!(w.len(), 5);
    assert_eq!(w.samples(), vec![195, 196, 197, 198, 199]);
}

#[test]
fn average_on_empty_window_reports_no_data() {
    let w = SlidingWindow::new(4);
    assert_eq!(w.average(), None);
}

#[test]
fn average_is_exact_mean() {
    let mut w = SlidingWindow::new(10);
    w.push(1);
    w.push(2);
    w.push(3);
    w.push(4);
    assert_eq!(w.average(), Some(2)); // (1+2+3+4)/4 == 2 exactly
    let mut v = SlidingWindow::new(10);
    v.push(1);
    v.push(2);
    assert_eq!(v.average(), Some(1)); // truncated mean
}

#[test]
fn average_of_max_samples_does_not_overflow() {
    let mut w = SlidingWindow::new(8);
    for _ in 0..8 {
        w.push(u64::MAX);
    }
    assert_eq!(w.average(), Some(u64::MAX));
}

#[test]
fn zero_capacity_window_is_degenerate() {
    let mut w = SlidingWindow::new(0);
    w.push(7);
    w.push(8);
    assert_eq!(w.len(), 0);
    assert_eq!(w.average(), None);
    assert_eq!(w.samples(), Vec::<u64>::new());
}

#[test]
fn decimal_rendering_is_exact() {
    assert_eq!(u64_to_string(0), "0");
    assert_eq!(u64_to_string(7), "7");
    assert_eq!(u64_to_string(42), "42");
    assert_eq!(u64_to_string(30_000_000), "30000000");
    assert_eq!(u64_to_string(u64::MAX), "18446744073709551615");
}
