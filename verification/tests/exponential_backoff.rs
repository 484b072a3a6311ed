use kira_r2kad::utils::ExponentialBackoff;

#[test]
fn iter_emits_max_retries_times() {
    let mut backoff = ExponentialBackoff::with_default_base(5, 5);
    assert!(backoff.next().is_some());
    assert!(backoff.next().is_some());
    assert!(backoff.next().is_some());
    assert!(backoff.next().is_some());
    assert!(backoff.next().is_some());
    assert!(backoff.next().is_none());
}

#[test]
fn iter_emits_max_retries_times_correct_value() {
    let mut backoff = ExponentialBackoff::with_default_base(5, 1);
    assert_eq!(backoff.next(), Some(1));
    assert_eq!(backoff.next(), Some(2));
    assert_eq!(backoff.next(), Some(4));
    assert_eq!(backoff.next(), Some(8));
    assert_eq!(backoff.next(), Some(16));
    assert_eq!(backoff.next(), None);
}

#[test]
fn iter_works_with_limit_correctly() {
    let mut backoff = ExponentialBackoff::with_default_base(5, 1);
    backoff.set_limit();
    assert_eq!(backoff.next(), Some(1));
    assert_eq!(backoff.next(), Some(2));
    assert_eq!(backoff.next(), Some(4));
    assert_eq!(backoff.next(), Some(8));
    assert_eq!(backoff.next(), Some(16));
    assert_eq!(backoff.next(), Some(16));
    assert_eq!(backoff.next(), Some(16));
    assert_eq!(backoff.next(), Some(16));
    assert_eq!(backoff.next(), Some(16));
    backoff.clear_limit();
    assert_eq!(backoff.next(), Some(16));
    assert_eq!(backoff.next(), None);
}

#[test]
fn random_provides_correct_value() {
    let mut backoff = ExponentialBackoff::random_with_default_base(5, 100_000);
    let next_value = backoff.next(); // 100 ms
    assert!(50_000 <= next_value.unwrap() && next_value.unwrap() <= 150_000);
    let next_value = backoff.next(); // 200 ms
    assert!(100_000 <= next_value.unwrap() && next_value.unwrap() <= 300_000);
    let next_value = backoff.next(); // 400 ms
    assert!(200_000 <= next_value.unwrap() && next_value.unwrap() <= 600_000);
    let next_value = backoff.next(); // 800 ms
    assert!(400_000 <= next_value.unwrap() && next_value.unwrap() <= 1_200_000);
    let next_value = backoff.next(); // 1600 ms
    assert!(800_000 <= next_value.unwrap() && next_value.unwrap() <= 2_400_000);
    assert_eq!(backoff.next(), None);
}

#[test]
fn reset_starts_over() {
    let mut backoff = ExponentialBackoff::with_default_base(3, 10);
    assert!(!backoff.is_started());
    assert_eq!(backoff.next(), Some(10));
    assert!(backoff.is_started());
    assert_eq!(backoff.next(), Some(20));
    backoff.reset();
    assert!(!backoff.is_started());
    assert_eq!(backoff.next(), Some(10));
}

#[test]
fn custom_base_grows_by_base() {
    let mut backoff = ExponentialBackoff::new(3, 3, 2);
    assert_eq!(backoff.next(), Some(2));
    assert_eq!(backoff.next(), Some(6));
    assert_eq!(backoff.next(), Some(18));
    assert_eq!(backoff.next(), None);
}

#[test]
fn zero_retries_emit_nothing() {
    let mut backoff = ExponentialBackoff::with_default_base(0, 7);
    assert_eq!(backoff.next(), None);
    backoff.set_limit();
    assert_eq!(backoff.next(), None);
}

#[test]
fn limited_single_retry_backoff_is_started_after_next() {
    let mut backoff = ExponentialBackoff::with_default_base(1, 1);
    backoff.set_limit();
    assert!(!backoff.is_started());
    assert_eq!(backoff.next(), Some(1));
    assert!(backoff.is_started());
    assert_eq!(backoff.next(), Some(1));
    backoff.reset();
    assert!(!backoff.is_started());
}

#[test]
fn reset_undoes_any_number_of_nexts() {
    let fresh = ExponentialBackoff::with_default_base(3, 10);
    let mut b = fresh;
    b.next();
    b.next();
    b.next();
    b.next();
    b.reset();
    assert_eq!(b, fresh);
    assert!(!b.is_started());
    assert_eq!(b.next(), Some(10));
}
