use ton_faucet::claim::{give_up_message, send_claim, ClaimStep};
use ton_faucet::config::{Config, EnvVars, Tuning};
use ton_faucet::retry::{exponential_backoff, Attempts, Decision, Outcome};

fn config(worker_max_retries: u32) -> Config {
    Config::from_env(
        EnvVars {
            database_url: None,
            mnemonic: String::new(),
            toncenter_api_key: None,
            toncenter_url: None,
            port: None,
            faucet_amount: None,
            pow_difficulty: None,
        },
        Tuning {
            toncenter_timeout_seconds: 1,
            toncenter_connect_timeout_seconds: 1,
            toncenter_max_retries: 1,
            toncenter_retry_base_delay_ms: 1,
            worker_max_retries,
            worker_retry_base_delay_ms: 100,
        },
    )
}

#[test]
fn backoff_doubles_up_to_the_cap() {
    assert_eq!(exponential_backoff(100, 0), 100);
    assert_eq!(exponential_backoff(100, 1), 200);
    assert_eq!(exponential_backoff(100, 7), 12_800);
    assert_eq!(exponential_backoff(100, 8), 25_600);
    assert_eq!(exponential_backoff(100, 9), 25_600);
    assert_eq!(exponential_backoff(100, u32::MAX), 25_600);
    assert_eq!(exponential_backoff(0, 5), 0);
}

#[test]
fn backoff_saturates() {
    assert_eq!(exponential_backoff(u64::MAX, 0), u64::MAX);
    assert_eq!(exponential_backoff(u64::MAX / 2, 2), u64::MAX);
    assert_eq!(exponential_backoff(u64::MAX, 8), u64::MAX);
}

#[test]
fn backoff_is_bounded_and_never_shrinks() {
    for base in [0, 1, 7, 1000, u64::MAX / 100, u64::MAX] {
        for attempt in 0..12 {
            let delay = exponential_backoff(base, attempt);
            assert!(base <= delay);
            assert!(u128::from(delay) <= 256 * u128::from(base));
            assert!(delay <= exponential_backoff(base, attempt + 1));
        }
    }
}

#[test]
fn only_passing_failures_are_retried() {
    let mut attempts = Attempts::first(1);
    assert_eq!(attempts.decide(Outcome::Permanent), Decision::Abort);
    assert_eq!(attempts.decide(Outcome::Transient), Decision::Retry);
    assert_eq!(attempts.attempt, 1);
    assert_eq!(attempts.decide(Outcome::Success), Decision::Finish);
    assert_eq!(attempts.decide(Outcome::Transient), Decision::Abort);
}

#[test]
fn claim_is_given_up_after_all_retries() {
    let mut run = send_claim(&config(3));
    assert_eq!(run.on_attempt(false), ClaimStep::Retry { delay_ms: 100 });
    assert_eq!(run.on_attempt(false), ClaimStep::Retry { delay_ms: 200 });
    assert_eq!(run.on_attempt(false), ClaimStep::Retry { delay_ms: 400 });
    assert_eq!(run.on_attempt(false), ClaimStep::GiveUp);
}

#[test]
fn claim_waits_between_attempts_only() {
    let mut run = send_claim(&config(12));
    let mut delays: Vec<u64> = Vec::new();
    let mut attempts = 0;
    loop {
        attempts += 1;
        match run.on_attempt(attempts == 11) {
            ClaimStep::Retry { delay_ms } => delays.push(delay_ms),
            ClaimStep::Paid => break,
            ClaimStep::GiveUp => panic!("given up"),
        }
    }
    assert_eq!(delays.len(), attempts - 1);
    for (i, delay) in delays.iter().enumerate() {
        assert_eq!(*delay, exponential_backoff(100, i as u32));
    }
}

#[test]
fn claim_given_up_is_put_in_words() {
    assert_eq!(give_up_message("no route"), "Failed to send claim: no route");
}

#[test]
fn claim_is_paid_by_the_first_success() {
    let mut run = send_claim(&config(3));
    assert_eq!(run.on_attempt(false), ClaimStep::Retry { delay_ms: 100 });
    assert_eq!(run.on_attempt(true), ClaimStep::Paid);
}

#[test]
fn claim_without_retries_has_one_attempt() {
    assert_eq!(send_claim(&config(0)).on_attempt(false), ClaimStep::GiveUp);
    assert_eq!(send_claim(&config(0)).on_attempt(true), ClaimStep::Paid);
}
