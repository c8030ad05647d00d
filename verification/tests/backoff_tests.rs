use hyperliquid_telegram_bot::backoff::{backoff_delay_ms, jittered_delay, raw_delay};
use hyperliquid_telegram_bot::config::RetryConfig;
use hyperliquid_telegram_bot::connection::{
    AttemptOutcome, ConnectionSupervisor, SupervisorAction,
};

#[test]
fn raw_delay_doubles_and_caps() {
    assert_eq!(raw_delay(1000, 30000, 1), 1000);
    assert_eq!(raw_delay(1000, 30000, 2), 2000);
    assert_eq!(raw_delay(1000, 30000, 3), 4000);
    assert_eq!(raw_delay(1000, 30000, 5), 16000);
    assert_eq!(raw_delay(1000, 30000, 6), 30000);
    assert_eq!(raw_delay(1000, 30000, 60), 30000);
    assert_eq!(raw_delay(0, 30000, 7), 0);
    assert_eq!(raw_delay(40000, 30000, 1), 30000);
}

#[test]
fn raw_delay_sequence_is_non_decreasing_and_bounded() {
    let mut last = 0u64;
    for attempt in 1..40u32 {
        let d = raw_delay(700, 25000, attempt);
        assert!(d >= last);
        assert!(d <= 25000);
        last = d;
    }
}

#[test]
fn jitter_stays_within_ten_percent() {
    for r in [0u64, 1, 7, 99, 1000, u64::MAX] {
        let d = jittered_delay(2000, r);
        assert!((1800..=2200).contains(&d));
    }
    assert_eq!(jittered_delay(0, 12345), 0);
}

#[test]
fn full_delay_stays_within_ten_percent_of_raw() {
    for _ in 0..32 {
        let d = backoff_delay_ms(1000, 30000, 2);
        assert!((1800..=2200).contains(&d));
        let capped = backoff_delay_ms(1000, 30000, 20);
        assert!((27000..=33000).contains(&capped));
    }
}

#[test]
fn supervisor_retries_after_first_error_within_window() {
    // transport error on attempt 1: the reconnect must wait within
    // [base*2*0.9, base*2*1.1] milliseconds
    let retry = RetryConfig {
        max_attempts: 5,
        base_delay_ms: 1000,
        max_delay_ms: 30000,
    };
    let mut s = ConnectionSupervisor::new(&retry);
    match s.on_attempt_end(AttemptOutcome::Failed) {
        SupervisorAction::Retry { delay_ms } => {
            assert!((1800..=2200).contains(&delay_ms));
        }
        _ => panic!("first failure must retry"),
    }
}

#[test]
fn supervisor_exhausts_retries_then_gives_up() {
    let retry = RetryConfig {
        max_attempts: 5,
        base_delay_ms: 1000,
        max_delay_ms: 30000,
    };
    let mut s = ConnectionSupervisor::new(&retry);
    for _ in 0..4 {
        assert!(matches!(
            s.on_attempt_end(AttemptOutcome::Failed),
            SupervisorAction::Retry { .. }
        ));
    }
    assert!(matches!(
        s.on_attempt_end(AttemptOutcome::Failed),
        SupervisorAction::GiveUp
    ));
}

#[test]
fn supervisor_exits_on_graceful_end_or_cancel() {
    let retry = RetryConfig {
        max_attempts: 5,
        base_delay_ms: 1000,
        max_delay_ms: 30000,
    };
    let mut s = ConnectionSupervisor::new(&retry);
    assert!(matches!(
        s.on_attempt_end(AttemptOutcome::Ended),
        SupervisorAction::Exit
    ));
    assert!(matches!(
        s.on_attempt_end(AttemptOutcome::Cancelled),
        SupervisorAction::Exit
    ));
}
