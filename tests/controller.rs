use art_engine::controller::{check_log_existing_dna, Attempt, RetryController};

#[test]
fn log_policy_thresholds() {
    assert!(check_log_existing_dna(1));
    assert!(check_log_existing_dna(999));
    assert!(check_log_existing_dna(1000));
    assert!(!check_log_existing_dna(1050));
    assert!(check_log_existing_dna(1100));
    assert!(!check_log_existing_dna(1250));
    assert!(!check_log_existing_dna(2999));
    assert!(!check_log_existing_dna(3100));
    assert!(check_log_existing_dna(3250));
    assert!(check_log_existing_dna(3500));
    assert!(check_log_existing_dna(5000));
    assert!(!check_log_existing_dna(5250));
    assert!(check_log_existing_dna(5500));
}

#[test]
fn duplicates_are_collisions() {
    let mut c = RetryController::new(3, 2);
    assert!(c.is_running());
    assert_eq!(c.offer("aaa".to_string()), Attempt::Accepted(1));
    assert_eq!(c.offer("bbb".to_string()), Attempt::Accepted(2));
    assert_eq!(c.offer("aaa".to_string()), Attempt::Collided { retries: 1, log: true });
    assert!(c.is_known("bbb"));
    assert!(!c.is_known("ccc"));
    assert_eq!(c.get_accepted(), 2);
    assert_eq!(c.offer("bbb".to_string()), Attempt::Collided { retries: 2, log: true });
    assert!(c.is_exhausted());
    assert!(!c.is_running());
    assert_eq!(c.shortfall(), 1);
    assert_eq!(c.get_target(), 3);
}

#[test]
fn retry_counter_is_cumulative() {
    let mut c = RetryController::new(3, 10);
    c.offer("a".to_string());
    c.offer("a".to_string());
    c.offer("b".to_string());
    assert_eq!(c.offer("b".to_string()), Attempt::Collided { retries: 2, log: true });
    assert_eq!(c.offer("c".to_string()), Attempt::Accepted(3));
    assert!(c.is_done());
    assert_eq!(c.get_retries(), 2);
}

#[test]
fn zero_target_is_done_at_once() {
    let c = RetryController::new(0, 10);
    assert!(c.is_done());
    assert!(!c.is_running());
    assert_eq!(c.shortfall(), 0);
}
