use marginalia::retry::{
    classify_status, is_retryable, ErrorKind, RetryConfig, RetryExecutor, RetryStatus, RetryStep,
};

#[test]
fn test_retry_config_backoff() {
    let config = RetryConfig::default();
    assert_eq!(config.backoff_for_attempt(0), 500);
    assert_eq!(config.backoff_for_attempt(1), 1000);
    assert_eq!(config.backoff_for_attempt(2), 2000);
}

#[test]
fn default_retry_config() {
    let config = RetryConfig::default();
    assert_eq!(config.max_retries, 3);
    assert_eq!(config.initial_backoff, 500);
    assert_eq!(config.max_backoff, 30_000);
    assert_eq!(config.multiplier, 2);
}

#[test]
fn backoff_is_capped_at_the_maximum() {
    let config = RetryConfig::default();
    assert_eq!(config.backoff_for_attempt(5), 16_000);
    assert_eq!(config.backoff_for_attempt(6), 30_000);
    assert_eq!(config.backoff_for_attempt(7), 30_000);
    assert_eq!(config.backoff_for_attempt(64), 30_000);
    assert_eq!(config.backoff_for_attempt(u32::MAX), 30_000);
}

#[test]
fn backoff_never_shrinks_and_never_exceeds_the_maximum() {
    let config = RetryConfig { max_retries: 10, initial_backoff: 7, max_backoff: 5_000, multiplier: 3 };
    let mut previous = 0;
    for attempt in 0..40 {
        let backoff = config.backoff_for_attempt(attempt);
        assert!(backoff >= previous);
        assert!(backoff <= 5_000);
        previous = backoff;
    }
    assert_eq!(config.backoff_for_attempt(0), 7);
    assert_eq!(config.backoff_for_attempt(1), 21);
    assert_eq!(config.backoff_for_attempt(5), 1_701);
    assert_eq!(config.backoff_for_attempt(6), 5_000);
}

#[test]
fn backoff_edge_cases() {
    let steady = RetryConfig { max_retries: 1, initial_backoff: 250, max_backoff: 1_000, multiplier: 1 };
    assert_eq!(steady.backoff_for_attempt(0), 250);
    assert_eq!(steady.backoff_for_attempt(1_000_000), 250);

    let vanishing = RetryConfig { max_retries: 1, initial_backoff: 250, max_backoff: 1_000, multiplier: 0 };
    assert_eq!(vanishing.backoff_for_attempt(0), 250);
    assert_eq!(vanishing.backoff_for_attempt(1), 0);

    let none = RetryConfig { max_retries: 1, initial_backoff: 0, max_backoff: 1_000, multiplier: 5 };
    assert_eq!(none.backoff_for_attempt(9), 0);

    let low_cap = RetryConfig { max_retries: 1, initial_backoff: 500, max_backoff: 100, multiplier: 2 };
    assert_eq!(low_cap.backoff_for_attempt(0), 100);
    assert_eq!(low_cap.backoff_for_attempt(3), 100);

    let huge = RetryConfig {
        max_retries: 1,
        initial_backoff: u64::MAX,
        max_backoff: u64::MAX,
        multiplier: u32::MAX,
    };
    assert_eq!(huge.backoff_for_attempt(0), u64::MAX);
    assert_eq!(huge.backoff_for_attempt(3), u64::MAX);
}

#[test]
fn error_kinds_that_are_retried() {
    assert!(is_retryable(ErrorKind::Transport));
    assert!(is_retryable(ErrorKind::Server));
    assert!(!is_retryable(ErrorKind::Client));
    assert!(!is_retryable(ErrorKind::Parse));
    assert!(!is_retryable(ErrorKind::Validation));
    assert!(!is_retryable(ErrorKind::Infrastructure));
}

#[test]
fn status_codes_are_classified() {
    assert_eq!(classify_status(200), None);
    assert_eq!(classify_status(204), None);
    assert_eq!(classify_status(299), None);
    assert_eq!(classify_status(500), Some(ErrorKind::Server));
    assert_eq!(classify_status(503), Some(ErrorKind::Server));
    assert_eq!(classify_status(599), Some(ErrorKind::Server));
    assert_eq!(classify_status(429), Some(ErrorKind::Server));
    assert_eq!(classify_status(400), Some(ErrorKind::Client));
    assert_eq!(classify_status(404), Some(ErrorKind::Client));
    assert_eq!(classify_status(428), Some(ErrorKind::Client));
    assert_eq!(classify_status(430), Some(ErrorKind::Client));
    assert_eq!(classify_status(302), Some(ErrorKind::Client));
    assert_eq!(classify_status(199), Some(ErrorKind::Client));
    assert_eq!(classify_status(600), Some(ErrorKind::Client));
}

/// Runs an operation that fails `failures` times and then succeeds, as a
/// caller of the executor would, and counts the sleeps.
fn run_until_success(config: RetryConfig, failures: u32) -> (Result<u32, String>, Vec<u64>) {
    let mut executor = RetryExecutor::new(config);
    let mut sleeps = Vec::new();
    let mut calls = 0;
    loop {
        let result: Result<u32, String> = if calls < failures {
            Err(format!("failure {}", calls))
        } else {
            Ok(42)
        };
        calls += 1;
        match executor.on_result(result, true) {
            RetryStep::Return(result) => return (result, sleeps),
            RetryStep::Backoff(wait) => sleeps.push(wait),
        }
    }
}

#[test]
fn retry_succeeds_after_k_failures_with_k_sleeps() {
    let config = RetryConfig::default();
    for failures in 0..3 {
        let (result, sleeps) = run_until_success(config, failures);
        assert_eq!(result, Ok(42));
        assert_eq!(sleeps.len(), failures as usize);
    }
    let (result, sleeps) = run_until_success(config, 2);
    assert_eq!(result, Ok(42));
    assert_eq!(sleeps, vec![500, 1000]);
}

#[test]
fn retry_gives_up_when_retries_are_used_up() {
    let config = RetryConfig::default();
    let (result, sleeps) = run_until_success(config, 3);
    assert_eq!(result, Ok(42));
    assert_eq!(sleeps, vec![500, 1000, 2000]);

    let (result, sleeps) = run_until_success(config, 4);
    assert_eq!(result, Err("failure 3".to_string()));
    assert_eq!(sleeps, vec![500, 1000, 2000]);
}

#[test]
fn terminal_error_returns_at_once_without_sleep() {
    let mut executor = RetryExecutor::new(RetryConfig::default());
    let result: Result<(), &str> = Err("bad request");
    assert_eq!(executor.on_result(result, false), RetryStep::Return(Err("bad request")));
    assert_eq!(executor.sleeps(), 0);
    assert_eq!(executor.status(), RetryStatus::Failed);
}

#[test]
fn retry_executor_state() {
    let config = RetryConfig { max_retries: 1, initial_backoff: 10, max_backoff: 100, multiplier: 2 };
    let mut executor = RetryExecutor::new(config);
    assert_eq!(executor.config(), config);
    assert_eq!(executor.status(), RetryStatus::Running);
    assert_eq!(executor.sleeps(), 0);

    assert_eq!(executor.on_result(Err::<u8, u8>(1), true), RetryStep::Backoff(10));
    assert_eq!(executor.status(), RetryStatus::Running);
    assert_eq!(executor.sleeps(), 1);

    assert_eq!(executor.on_result(Err::<u8, u8>(2), true), RetryStep::Return(Err(2)));
    assert_eq!(executor.status(), RetryStatus::Failed);
    assert_eq!(executor.sleeps(), 1);

    // a finished executor hands everything back and stays as it is
    assert_eq!(executor.on_result(Err::<u8, u8>(3), true), RetryStep::Return(Err(3)));
    assert_eq!(executor.on_result(Ok::<u8, u8>(4), true), RetryStep::Return(Ok(4)));
    assert_eq!(executor.status(), RetryStatus::Failed);
    assert_eq!(executor.sleeps(), 1);
}

#[test]
fn retry_executor_without_retries() {
    let config = RetryConfig { max_retries: 0, initial_backoff: 10, max_backoff: 100, multiplier: 2 };
    let mut executor = RetryExecutor::new(config);
    assert_eq!(executor.on_result(Err::<u8, u8>(1), true), RetryStep::Return(Err(1)));
    assert_eq!(executor.sleeps(), 0);

    let mut executor = RetryExecutor::new(config);
    assert_eq!(executor.on_result(Ok::<u8, u8>(1), false), RetryStep::Return(Ok(1)));
    assert_eq!(executor.status(), RetryStatus::Succeeded);
}
