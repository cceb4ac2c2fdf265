use mailflow::error::MailflowError;
use mailflow::utils::retry::{RetryConfig, RetryDecision};

#[test]
fn test_retry_backoff() {
    fn calculate_backoff(retry_count: u32, base_ms: u64) -> u64 {
        base_ms * 2_u64.pow(retry_count)
    }

    assert_eq!(calculate_backoff(0, 100), 100);
    assert_eq!(calculate_backoff(1, 100), 200);
    assert_eq!(calculate_backoff(2, 100), 400);
    assert_eq!(calculate_backoff(3, 100), 800);
    assert_eq!(calculate_backoff(4, 100), 1600);

    const MAX_RETRIES: u32 = 5;
    for attempt in 0..=10 {
        let backoff = calculate_backoff(attempt.min(MAX_RETRIES), 100);
        assert!(backoff <= calculate_backoff(MAX_RETRIES, 100));
    }

    let config = RetryConfig::new(5, 100, u64::MAX);
    for attempt in 0..=10u32 {
        assert_eq!(config.capped_delay(attempt), calculate_backoff(attempt, 100));
    }
}

#[test]
fn test_retry_config_delay_calculation() {
    let config = RetryConfig::new(5, 1000, 60000);

    let delay0 = config.calculate_delay(0);
    assert!(delay0 >= 900 && delay0 <= 1100);

    let delay1 = config.calculate_delay(1);
    assert!(delay1 >= 1800 && delay1 <= 2200);

    let delay_high = config.calculate_delay(10);
    assert!(delay_high <= 66000);
}

#[test]
fn backoff_doubles_and_is_capped() {
    let config = RetryConfig::default();
    assert_eq!(
        (config.max_retries, config.base_delay_ms, config.max_delay_ms, config.jitter_permille),
        (5, 1000, 300000, 100)
    );
    let expected: [u64; 10] = [1000, 2000, 4000, 8000, 16000, 32000, 64000, 128000, 256000, 300000];
    for (attempt, want) in expected.iter().enumerate() {
        assert_eq!(config.capped_delay(attempt as u32), *want);
    }
    assert_eq!(config.capped_delay(63), 300000);
    assert_eq!(config.capped_delay(64), 300000);
    assert_eq!(config.capped_delay(u32::MAX), 300000);
    assert_eq!(RetryConfig::new(3, 0, 500).capped_delay(7), 0);
    assert_eq!(RetryConfig::new(3, 7, 0).capped_delay(0), 0);
    assert_eq!(RetryConfig::new(3, 3, u64::MAX).capped_delay(62), 3 << 62);
    assert_eq!(RetryConfig::new(3, 3, u64::MAX).capped_delay(63), u64::MAX);
}

#[test]
fn jitter_picks_a_factor_within_the_jitter() {
    let config = RetryConfig::new(5, 1000, 60000);
    assert_eq!(config.apply_jitter(1000, 0), 900);
    assert_eq!(config.apply_jitter(1000, 100), 1000);
    assert_eq!(config.apply_jitter(1000, 200), 1100);
    assert_eq!(config.apply_jitter(1000, 201), 900);
    assert_eq!(config.apply_jitter(60000, 200), 66000);
    assert_eq!(config.apply_jitter(7, 3), 6);
    let wild = RetryConfig { max_retries: 1, base_delay_ms: 1, max_delay_ms: 1, jitter_permille: 5000 };
    assert_eq!(wild.apply_jitter(1000, 0), 0);
    assert_eq!(wild.apply_jitter(1000, 2000), 2000);
    assert_eq!(wild.apply_jitter(u64::MAX, 2000), u64::MAX);
    let none = RetryConfig { max_retries: 1, base_delay_ms: 1, max_delay_ms: 1, jitter_permille: 0 };
    assert_eq!(none.apply_jitter(1234, 987654321), 1234);
    let mut seen_different = false;
    let first = config.calculate_delay(3);
    for _ in 0..200 {
        let d = config.calculate_delay(3);
        assert!(d >= 7200 && d <= 8800);
        seen_different = seen_different || d != first;
    }
    assert!(seen_different);
}

fn run(config: &RetryConfig, outcomes: &[Result<i32, MailflowError>]) -> (u32, Result<i32, MailflowError>) {
    let mut attempt: u32 = 0;
    let mut calls: u32 = 0;
    for outcome in outcomes {
        calls += 1;
        match outcome {
            Ok(v) => return (calls, Ok(*v)),
            Err(e) => match config.on_failure(attempt, e.copy(), None) {
                RetryDecision::Fail(e) => return (calls, Err(e)),
                RetryDecision::Sleep { delay_ms: _, next_attempt } => {
                    assert_eq!(next_attempt, attempt + 1);
                    attempt = next_attempt;
                }
            },
        }
    }
    panic!("ran out of outcomes");
}

#[test]
fn test_retry_success_first_attempt() {
    let (calls, result) = run(&RetryConfig::new(3, 10, 1000), &[Ok(42)]);
    assert!(result.is_ok());
    assert_eq!(result.unwrap(), 42);
    assert_eq!(calls, 1);
}

#[test]
fn test_retry_success_after_failures() {
    let storage = || Err(MailflowError::Storage("Retriable error".to_string()));
    let (calls, result) = run(&RetryConfig::new(5, 10, 1000), &[storage(), storage(), Ok(42)]);
    assert!(result.is_ok());
    assert_eq!(result.unwrap(), 42);
    assert_eq!(calls, 3);
}

#[test]
fn test_retry_permanent_error_no_retry() {
    let outcomes: Vec<Result<i32, MailflowError>> = (0..10)
        .map(|_| Err(MailflowError::Validation("Permanent error".to_string())))
        .collect();
    let (calls, result) = run(&RetryConfig::new(5, 10, 1000), &outcomes);
    assert!(result.is_err());
    assert_eq!(calls, 1);
}

#[test]
fn test_retry_max_retries_exhausted() {
    let outcomes: Vec<Result<i32, MailflowError>> =
        (0..10).map(|_| Err(MailflowError::Storage("Retriable".to_string()))).collect();
    let (calls, result) = run(&RetryConfig::new(3, 10, 1000), &outcomes);
    assert!(result.is_err());
    assert_eq!(calls, 4);
    assert!(result.unwrap_err().is_retriable());
}

#[test]
fn retries_are_exactly_max_retries_for_every_transient_kind() {
    for max_retries in [0u32, 1, 2, 5, 9] {
        for make in [
            MailflowError::Storage as fn(String) -> MailflowError,
            MailflowError::Queue,
            MailflowError::Ses,
            MailflowError::Idempotency,
        ] {
            let outcomes: Vec<Result<i32, MailflowError>> =
                (0..max_retries + 5).map(|_| Err(make("x".to_string()))).collect();
            let (calls, _) = run(&RetryConfig::new(max_retries, 1, 10), &outcomes);
            assert_eq!(calls, max_retries + 1);
        }
        for make in [
            MailflowError::Validation as fn(String) -> MailflowError,
            MailflowError::EmailParsing,
            MailflowError::Routing,
            MailflowError::RateLimit,
            MailflowError::Config,
            MailflowError::Lambda,
            MailflowError::Unknown,
        ] {
            let outcomes: Vec<Result<i32, MailflowError>> =
                (0..3).map(|_| Err(make("x".to_string()))).collect();
            let (calls, _) = run(&RetryConfig::new(max_retries, 1, 10), &outcomes);
            assert_eq!(calls, 1);
        }
    }
}

#[test]
fn deadline_stops_the_retry() {
    let config = RetryConfig::new(5, 1000, 60000);
    let error = MailflowError::Storage("slow".to_string());
    assert_eq!(
        config.decide(0, error.copy(), 1000, Some(1000)),
        RetryDecision::Fail(error.copy())
    );
    assert_eq!(
        config.decide(0, error.copy(), 1000, Some(1001)),
        RetryDecision::Sleep { delay_ms: 1000, next_attempt: 1 }
    );
    assert_eq!(
        config.decide(4, error.copy(), 1000, None),
        RetryDecision::Sleep { delay_ms: 1000, next_attempt: 5 }
    );
    assert_eq!(config.decide(5, error.copy(), 1000, None), RetryDecision::Fail(error.copy()));
    assert_eq!(
        config.on_failure(0, error.copy(), Some(1)),
        RetryDecision::Fail(error.copy())
    );
}
