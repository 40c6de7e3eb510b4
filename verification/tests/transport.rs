use plc4rs::config::{TcpConfig, TransportConfig};
use plc4rs::error::{Error, TransportError};
use plc4rs::retry::{LinkState, RetryConfig, RetryDecision, RetryDelay, RetryState};

// Runs a series of attempts that fail one after the other, as a transport
// would, and records the delays that were announced, in milliseconds.
fn run_failing(config: RetryConfig) -> (u32, Vec<u64>, String) {
    let mut state = RetryState::new(config);
    let mut attempts = 0u32;
    let mut delays = Vec::new();
    loop {
        attempts += 1;
        assert_eq!(state.attempt(), attempts);
        match state.on_failure(format!("failure {}", attempts)) {
            RetryDecision::RetryAfter(delay) => delays.push(delay.saturating_millis()),
            RetryDecision::GiveUp(error) => return (attempts, delays, error),
        }
    }
}

#[test]
fn transport_defaults() {
    let config = TransportConfig::default();
    assert_eq!(config.connect_timeout, 5000);
    assert_eq!(config.read_timeout, 1000);
    assert_eq!(config.write_timeout, 1000);
    assert_eq!(config.buffer_size, 8192);
    let tcp = TcpConfig::default();
    assert_eq!(tcp.base, config);
    assert!(tcp.no_delay);
    assert!(tcp.keep_alive);
    assert_eq!(tcp.keep_alive_time(), Some(5000));
    let quiet = TcpConfig { keep_alive: false, ..tcp };
    assert_eq!(quiet.keep_alive_time(), None);
}

#[test]
fn retry_defaults() {
    let config = RetryConfig::default();
    assert_eq!(config.max_attempts, 3);
    assert_eq!(config.retry_delay, 100);
    assert!(config.use_backoff);
}

#[test]
fn default_rule_makes_three_attempts_and_doubles_the_delay() {
    let (attempts, delays, error) = run_failing(RetryConfig::default());
    assert_eq!(attempts, 3);
    assert_eq!(delays, vec![100, 200]);
    assert_eq!(error, "failure 3");
}

#[test]
fn as_many_attempts_are_made_as_the_rule_allows() {
    for max_attempts in 1..=20u32 {
        let config = RetryConfig { max_attempts, retry_delay: 10, use_backoff: false };
        let (attempts, delays, error) = run_failing(config);
        assert_eq!(attempts, max_attempts);
        assert_eq!(delays, vec![10; (max_attempts - 1) as usize]);
        assert_eq!(error, format!("failure {}", max_attempts));
    }
}

#[test]
fn a_rule_of_no_attempts_still_makes_one() {
    let config = RetryConfig { max_attempts: 0, retry_delay: 10, use_backoff: true };
    let (attempts, delays, error) = run_failing(config);
    assert_eq!(attempts, 1);
    assert!(delays.is_empty());
    assert_eq!(error, "failure 1");
}

#[test]
fn nth_delay_is_the_first_delay_times_two_to_the_n_minus_one() {
    let config = RetryConfig { max_attempts: 12, retry_delay: 3, use_backoff: true };
    let (attempts, delays, _) = run_failing(config);
    assert_eq!(attempts, 12);
    assert_eq!(delays.len(), 11);
    for (index, delay) in delays.iter().enumerate() {
        assert_eq!(*delay, 3 * (1u64 << index));
    }
    assert_eq!(delays[10], 3072);
}

#[test]
fn waits_lie_between_the_attempts_and_none_behind_the_last() {
    for max_attempts in 1..=10u32 {
        let config = RetryConfig { max_attempts, retry_delay: 100, use_backoff: true };
        let (attempts, delays, _) = run_failing(config);
        assert_eq!(attempts, max_attempts);
        assert_eq!(delays.len() as u32, max_attempts - 1);
        for (index, delay) in delays.iter().enumerate() {
            assert_eq!(*delay, 100 * (1u64 << index));
        }
    }
}

#[test]
fn announced_delay_is_exact_where_milliseconds_no_longer_hold_it() {
    let config = RetryConfig { max_attempts: 5, retry_delay: 1 << 62, use_backoff: true };
    let mut state = RetryState::new(config);
    let mut announced = Vec::new();
    while let RetryDecision::RetryAfter(delay) = state.on_failure(()) {
        announced.push(delay);
    }
    assert_eq!(
        announced,
        vec![
            RetryDelay { base: 1 << 62, doublings: 0 },
            RetryDelay { base: 1 << 62, doublings: 1 },
            RetryDelay { base: 1 << 62, doublings: 2 },
            RetryDelay { base: 1 << 62, doublings: 3 },
        ]
    );
    let checked: Vec<Option<u64>> = announced.iter().map(|delay| delay.checked_millis()).collect();
    assert_eq!(checked, vec![Some(1 << 62), Some(1 << 63), None, None]);
    let saturating: Vec<u64> = announced.iter().map(|delay| delay.saturating_millis()).collect();
    assert_eq!(saturating, vec![1 << 62, 1 << 63, u64::MAX, u64::MAX]);
}

#[test]
fn delay_in_milliseconds() {
    assert_eq!(RetryDelay { base: 100, doublings: 0 }.checked_millis(), Some(100));
    assert_eq!(RetryDelay { base: 100, doublings: 1 }.checked_millis(), Some(200));
    assert_eq!(RetryDelay { base: 3, doublings: 10 }.checked_millis(), Some(3072));
    assert_eq!(RetryDelay { base: 1, doublings: 63 }.checked_millis(), Some(1 << 63));
    assert_eq!(RetryDelay { base: 1, doublings: 64 }.checked_millis(), None);
    assert_eq!(RetryDelay { base: 1, doublings: 64 }.saturating_millis(), u64::MAX);
    assert_eq!(RetryDelay { base: u64::MAX, doublings: 0 }.checked_millis(), Some(u64::MAX));
    assert_eq!(RetryDelay { base: u64::MAX, doublings: 1 }.checked_millis(), None);
    assert_eq!(RetryDelay { base: (1 << 63) + 1, doublings: 1 }.saturating_millis(), u64::MAX);
    assert_eq!(RetryDelay { base: 0, doublings: u32::MAX }.checked_millis(), Some(0));
    assert_eq!(RetryDelay { base: 5, doublings: u32::MAX }.checked_millis(), None);
    assert_eq!(RetryDelay { base: 5, doublings: u32::MAX }.saturating_millis(), u64::MAX);
}

#[test]
fn delay_does_not_double_without_backoff() {
    let config = RetryConfig { max_attempts: 4, retry_delay: 250, use_backoff: false };
    let mut state = RetryState::new(config);
    for _ in 0..3 {
        assert_eq!(
            state.on_failure(()),
            RetryDecision::RetryAfter(RetryDelay { base: 250, doublings: 0 })
        );
    }
    assert_eq!(state.on_failure(()), RetryDecision::GiveUp(()));
}

#[test]
fn giving_up_hands_back_the_error_and_changes_nothing() {
    let config = RetryConfig { max_attempts: 2, retry_delay: 50, use_backoff: true };
    let mut state = RetryState::new(config);
    assert_eq!(
        state.on_failure(TransportError::NotConnected),
        RetryDecision::RetryAfter(RetryDelay { base: 50, doublings: 0 })
    );
    assert_eq!(state.attempt(), 2);
    let last = TransportError::Connection("refused".to_string());
    assert_eq!(state.on_failure(last.clone()), RetryDecision::GiveUp(last));
    assert_eq!(state.attempt(), 2);
    let again = TransportError::Io("timed out".to_string());
    assert_eq!(state.on_failure(again.clone()), RetryDecision::GiveUp(again));
    assert_eq!(state.attempt(), 2);
}

#[test]
fn a_very_large_rule_does_not_overflow_the_count() {
    let config = RetryConfig { max_attempts: u32::MAX, retry_delay: 0, use_backoff: true };
    let mut state = RetryState::new(config);
    for attempt in 1..=1000u32 {
        assert_eq!(state.attempt(), attempt);
        let doublings = attempt - 1;
        assert_eq!(
            state.on_failure(()),
            RetryDecision::RetryAfter(RetryDelay { base: 0, doublings })
        );
    }
}

#[test]
fn link_state_guards_connect_read_and_write() {
    let mut link = LinkState::Disconnected;
    assert_eq!(link.check_connect(), Ok(()));
    assert_eq!(link.check_io(), Err(TransportError::NotConnected));
    link = LinkState::Connected;
    assert_eq!(link.check_connect(), Err(TransportError::AlreadyConnected));
    assert_eq!(link, LinkState::Connected);
    assert_eq!(link.check_io(), Ok(()));
    assert!(link.close());
    assert_eq!(link, LinkState::Disconnected);
    assert_eq!(link.check_io(), Err(TransportError::NotConnected));
}

#[test]
fn closing_twice_is_no_error() {
    let mut link = LinkState::Connected;
    assert!(link.close());
    assert!(!link.close());
    assert!(!link.close());
    assert_eq!(link, LinkState::Disconnected);
    assert_eq!(link.check_connect(), Ok(()));
}

#[test]
fn client_errors_carry_their_text() {
    let error = Error::Parse("short frame".to_string());
    assert_eq!(error, Error::Parse("short frame".to_string()));
    assert_ne!(error, Error::Protocol("short frame".to_string()));
    assert_ne!(error, Error::Connection("short frame".to_string()));
}
