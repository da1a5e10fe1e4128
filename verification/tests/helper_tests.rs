use node_stats::helper_fns::{current_time_millis, gen_random_bytes};

#[test]
fn random_bytes_have_requested_length() {
    assert_eq!(gen_random_bytes(0).len(), 0);
    assert_eq!(gen_random_bytes(1).len(), 1);
    assert_eq!(gen_random_bytes(1000).len(), 1000);
}

#[test]
fn random_bytes_are_not_constant() {
    // 32 random bytes collide with a fixed value with negligible probability
    let a = gen_random_bytes(32);
    let b = gen_random_bytes(32);
    assert!(a != vec![0u8; 32] || b != vec![0u8; 32]);
}

#[test]
fn clock_reads_are_sane_and_monotonic_enough() {
    let t1 = current_time_millis();
    let t2 = current_time_millis();
    // the sandbox clock is past 2020-01-01 and does not run backwards
    assert!(t1 >= 1_577_836_800_000);
    assert!(t2 >= t1);
}
